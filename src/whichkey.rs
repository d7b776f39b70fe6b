//! The hint of the keys that can follow a partly typed key sequence.
use vstd::prelude::*;
use crate::common::{header_of, keymap_name, Mode, ModeView};
use crate::keymap::{label_of, BindableView, KeyMap, KeyMapView, KeybindView, ModeTable, TableView, keymap_table};
use crate::text::{chars_of, joined, padded, push_padded, push_str, string_of, views};

verus! {

/// A binding that can follow `q`: a sequence one character longer that starts with `q`.
pub open spec fn is_candidate(e: (BindableView, KeybindView), q: Seq<char>) -> bool {
    extends_by_one(e.0, q)
}

/// A key that is a sequence one character longer than `q` that starts with `q`.
pub open spec fn extends_by_one(key: BindableView, q: Seq<char>) -> bool {
    match key {
        BindableView::Sequence(k) => k.len() == q.len() + 1 && k.subrange(0, q.len() as int) == q,
        _ => false,
    }
}

/// The bindings of `t` that can follow `q`, in key order.
pub open spec fn candidates(t: TableView, q: Seq<char>) -> TableView
    decreases t.len(),
{
    if t.len() == 0 {
        Seq::empty()
    } else if is_candidate(t.last(), q) {
        candidates(t.drop_last(), q).push(t.last())
    } else {
        candidates(t.drop_last(), q)
    }
}

/// `s` in the terminal colour that marks a key: blue for a prefix without
/// actions, red for a key that runs actions.
pub open spec fn painted(prefix_only: bool, s: Seq<char>) -> Seq<char> {
    (if prefix_only { "\x1b[34m"@ } else { "\x1b[31m"@ }) + s + "\x1b[0m"@
}

/// Relies on ansi_term's `Colour::paint` and its `Display`: the colour's escape
/// code, the text, and the reset code.
#[verifier::external_body]
fn paint(prefix_only: bool, s: &str) -> (r: String)
    ensures
        r@ == painted(prefix_only, s@),
{
    if prefix_only {
        ansi_term::Colour::Blue.paint(s).to_string()
    } else {
        ansi_term::Colour::Red.paint(s).to_string()
    }
}

/// The widest key label of a column.
pub open spec fn label_width(c: TableView) -> nat
    decreases c.len(),
{
    if c.len() == 0 {
        0
    } else {
        let w = label_width(c.drop_last());
        let l = label_of(c.last().0).len();
        if l > w { l } else { w }
    }
}

/// A row of a column: the painted key padded to `width`, two spaces, the help.
pub open spec fn hint_row(e: (BindableView, KeybindView), width: nat) -> Seq<char> {
    painted(e.1.1.len() == 0, padded(label_of(e.0), width)) + "  "@ + e.1.0
}

/// The rows of a column, keys padded to the column's widest.
pub open spec fn hint_rows(c: TableView) -> Seq<Seq<char>> {
    c.map_values(|e: (BindableView, KeybindView)| hint_row(e, label_width(c)))
}

/// The longest of some lines.
pub open spec fn max_len(rows: Seq<Seq<char>>) -> nat
    decreases rows.len(),
{
    if rows.len() == 0 {
        0
    } else {
        let w = max_len(rows.drop_last());
        if rows.last().len() > w { rows.last().len() } else { w }
    }
}

/// Line `r` of the two columns side by side.
pub open spec fn hint_line(left: Seq<Seq<char>>, right: Seq<Seq<char>>, r: int) -> Seq<char> {
    if r < right.len() {
        padded(left[r], max_len(left)) + " │ "@ + right[r]
    } else {
        padded(left[r], max_len(left)) + " │"@
    }
}

/// The hint for some candidates: the first half (rounded up) in the left
/// column, the rest in the right, side by side, one line per row.
pub open spec fn hint_text(c: TableView) -> Seq<char> {
    let h = c.len() / 2 + c.len() % 2;
    let left = hint_rows(c.subrange(0, h as int));
    let right = hint_rows(c.subrange(h as int, c.len() as int));
    joined(Seq::new(left.len(), |r: int| hint_line(left, right, r)), "\n"@)
}

/// The which-key hint of mode `m` after `q` was typed: none when the mode has
/// no table or no binding can follow `q`.
pub open spec fn which_key_of(k: KeyMapView, m: ModeView, q: Seq<char>) -> Option<Seq<char>> {
    match keymap_table(k, keymap_name(m)) {
        Some(t) => if candidates(t, q).len() == 0 {
            None
        } else {
            Some(hint_text(candidates(t, q)))
        },
        None => None,
    }
}

/// The header after `q` was typed in mode `m`: the which-key hint, or the mode's header.
pub open spec fn header_hint(k: KeyMapView, m: ModeView, q: Seq<char>) -> Seq<char> {
    match which_key_of(k, m, q) {
        Some(h) => h,
        None => header_of(m),
    }
}

/// Every candidate extends the query by exactly one character, and every
/// candidate is a binding of the table.
pub proof fn lemma_candidates_extend_query(t: TableView, q: Seq<char>)
    ensures
        forall|i: int| 0 <= i < candidates(t, q).len() ==> {
            let e = #[trigger] candidates(t, q)[i];
            &&& e.0 is Sequence
            &&& e.0->Sequence_0.len() == q.len() + 1
            &&& e.0->Sequence_0.subrange(0, q.len() as int) == q
            &&& t.contains(e)
        },
    decreases t.len(),
{
    if t.len() > 0 {
        lemma_candidates_extend_query(t.drop_last(), q);
        let c = candidates(t.drop_last(), q);
        assert forall|i: int| 0 <= i < c.len() implies t.contains(#[trigger] c[i]) by {
            assert(t.drop_last().contains(c[i]));
            let j = choose|j: int| 0 <= j < t.drop_last().len() && t.drop_last()[j] == c[i];
            assert(t[j] == c[i]);
        }
        if is_candidate(t.last(), q) {
            assert(t[t.len() - 1] == t.last());
        }
    }
}

fn is_candidate_exec(key: &crate::keymap::Bindable, q: &Vec<char>) -> (r: bool)
    ensures
        r == extends_by_one(key@, q@),
{
    match key {
        crate::keymap::Bindable::Key(_) => false,
        crate::keymap::Bindable::Sequence(s) => {
            let k = chars_of(s.as_str());
            if k.len() == 0 || k.len() - 1 != q.len() {
                return false;
            }
            let mut i: usize = 0;
            while i < q.len()
                invariant
                    i <= q@.len(),
                    k@ == s@,
                    key@ == BindableView::Sequence(s@),
                    k@.len() == q@.len() + 1,
                    k@.subrange(0, i as int) == q@.subrange(0, i as int),
                decreases q@.len() - i,
            {
                if k[i] != q[i] {
                    assert(k@.subrange(0, q@.len() as int)[i as int] == k@[i as int]);
                    assert(k@.subrange(0, q@.len() as int) != q@);
                    return false;
                }
                i = i + 1;
                assert(k@.subrange(0, i as int) =~= q@.subrange(0, i as int));
            }
            assert(q@.subrange(0, q@.len() as int) == q@);
            true
        },
    }
}

/// The entries of `t` at the positions `idx`.
pub open spec fn picked(t: TableView, idx: Seq<usize>) -> TableView {
    idx.map_values(|j: usize| t[j as int])
}

fn candidate_positions(table: &ModeTable, q: &Vec<char>) -> (r: Vec<usize>)
    ensures
        picked(table@, r@) == candidates(table@, q@),
        forall|j: int| 0 <= j < r@.len() ==> r@[j] < table@.len(),
{
    let ghost t = table@;
    let mut idx: Vec<usize> = Vec::new();
    let mut i: usize = 0;
    while i < table.len()
        invariant
            i <= t.len(),
            t == table@,
            picked(t, idx@) == candidates(t.subrange(0, i as int), q@),
            forall|j: int| 0 <= j < idx@.len() ==> idx@[j] < t.len(),
        decreases t.len() - i,
    {
        let (key, _) = table.entry(i);
        let ghost before = idx@;
        assert(t.subrange(0, i + 1).drop_last() == t.subrange(0, i as int));
        assert(t.subrange(0, i + 1).last() == t[i as int]);
        if is_candidate_exec(key, q) {
            idx.push(i);
            assert(picked(t, idx@) =~= picked(t, before).push(t[i as int]));
        }
        i = i + 1;
    }
    assert(t.subrange(0, t.len() as int) == t);
    idx
}

fn column_rows(table: &ModeTable, idx: &Vec<usize>, from: usize, to: usize) -> (r: Vec<String>)
    requires
        from <= to <= idx@.len(),
        forall|j: int| 0 <= j < idx@.len() ==> idx@[j] < table@.len(),
    ensures
        views(r@) == hint_rows(picked(table@, idx@).subrange(from as int, to as int)),
{
    let ghost c = picked(table@, idx@).subrange(from as int, to as int);
    let mut width: usize = 0;
    let mut labels: Vec<Vec<char>> = Vec::new();
    let mut j: usize = from;
    while j < to
        invariant
            from <= j <= to <= idx@.len(),
            forall|m: int| 0 <= m < idx@.len() ==> idx@[m] < table@.len(),
            c == picked(table@, idx@).subrange(from as int, to as int),
            width == label_width(c.subrange(0, j - from)),
            labels@.len() == j - from,
            forall|m: int| 0 <= m < labels@.len() ==> #[trigger] labels@[m]@ == label_of(c[m].0),
        decreases to - j,
    {
        let (key, _) = table.entry(idx[j]);
        let l = chars_of(key.label().as_str());
        assert(c.subrange(0, j + 1 - from).drop_last() == c.subrange(0, j - from));
        assert(c[j - from] == table@[idx@[j as int] as int]);
        if l.len() > width {
            width = l.len();
        }
        labels.push(l);
        j = j + 1;
    }
    assert(c.subrange(0, to - from) == c);
    let mut rows: Vec<String> = Vec::new();
    let mut j: usize = from;
    while j < to
        invariant
            from <= j <= to <= idx@.len(),
            forall|m: int| 0 <= m < idx@.len() ==> idx@[m] < table@.len(),
            c == picked(table@, idx@).subrange(from as int, to as int),
            width == label_width(c),
            labels@.len() == to - from,
            forall|m: int| 0 <= m < labels@.len() ==> #[trigger] labels@[m]@ == label_of(c[m].0),
            views(rows@) == hint_rows(c).subrange(0, j - from),
        decreases to - j,
    {
        let (_, bind) = table.entry(idx[j]);
        assert(c[j - from] == table@[idx@[j as int] as int]);
        let mut key_text: Vec<char> = Vec::new();
        push_padded(&mut key_text, &labels[j - from], width);
        let mut row: Vec<char> = Vec::new();
        let p = paint(bind.1.len() == 0, string_of(&key_text).as_str());
        push_str(&mut row, p.as_str());
        push_str(&mut row, "  ");
        push_str(&mut row, bind.0.as_str());
        let ghost before = views(rows@);
        let ghost k = j - from;
        assert(bind.1@.map_values(|a: crate::keymap::UserAction| a@).len() == bind.1@.len());
        assert(row@ == hint_row(c[k], width as nat));
        assert(hint_rows(c)[k] == hint_row(c[k], label_width(c)));
        let rs = string_of(&row);
        rows.push(rs);
        j = j + 1;
        assert(views(rows@) =~= before.push(rs@));
        assert(before.push(rs@) =~= hint_rows(c).subrange(0, j - from));
    }
    assert(hint_rows(c).subrange(0, to - from) == hint_rows(c));
    rows
}

fn longest(rows: &Vec<String>) -> (r: usize)
    ensures
        r == max_len(views(rows@)),
{
    let ghost v = views(rows@);
    let mut w: usize = 0;
    let mut i: usize = 0;
    while i < rows.len()
        invariant
            i <= rows@.len(),
            v == views(rows@),
            w == max_len(v.subrange(0, i as int)),
        decreases rows@.len() - i,
    {
        let n = chars_of(rows[i].as_str()).len();
        assert(v.subrange(0, i + 1).drop_last() == v.subrange(0, i as int));
        if n > w {
            w = n;
        }
        i = i + 1;
    }
    assert(v.subrange(0, rows@.len() as int) == v);
    w
}

/// The which-key hint of mode `mode` after `query` was typed: the keys that can
/// come next, in two columns. None when the mode has no table or no key can
/// come next.
pub fn which_key(keymap: &KeyMap, mode: &Mode, query: &str) -> (r: Option<String>)
    ensures
        match which_key_of(keymap@, mode@, query@) {
            Some(h) => r matches Some(x) && x@ == h,
            None => r is None,
        },
{
    let table = match keymap.get_keymap(mode) {
        Some(t) => t,
        None => return None,
    };
    let q = chars_of(query);
    let idx = candidate_positions(table, &q);
    if idx.len() == 0 {
        return None;
    }
    let ghost c = picked(table@, idx@);
    let n = idx.len();
    let h = n / 2 + n % 2;
    let left = column_rows(table, &idx, 0, h);
    let right = column_rows(table, &idx, h, n);
    let width = longest(&left);
    let ghost lv = views(left@);
    let ghost rv = views(right@);
    let mut lines: Vec<String> = Vec::new();
    let mut i: usize = 0;
    while i < left.len()
        invariant
            i <= left@.len(),
            lv == views(left@),
            rv == views(right@),
            width == max_len(lv),
            views(lines@) == Seq::new(i as nat, |r: int| hint_line(lv, rv, r)),
        decreases left@.len() - i,
    {
        let mut line: Vec<char> = Vec::new();
        let l = chars_of(left[i].as_str());
        push_padded(&mut line, &l, width);
        if i < right.len() {
            push_str(&mut line, " │ ");
            push_str(&mut line, right[i].as_str());
        } else {
            push_str(&mut line, " │");
        }
        assert(line@ == hint_line(lv, rv, i as int));
        let ghost before = views(lines@);
        let ls = string_of(&line);
        lines.push(ls);
        i = i + 1;
        assert(views(lines@) =~= before.push(ls@));
        assert(before.push(ls@) =~= Seq::new(i as nat, |r: int| hint_line(lv, rv, r)));
    }
    Some(crate::text::join(&lines, "\n"))
}

/// The header after `query` was typed in mode `mode`: the which-key hint, or
/// the mode's header where there is none.
pub fn header_for(keymap: &KeyMap, mode: &Mode, query: &str) -> (r: String)
    ensures
        r@ == header_hint(keymap@, mode@, query@),
{
    match which_key(keymap, mode, query) {
        Some(h) => h,
        None => string_of(&chars_of(mode.header())),
    }
}

} // verus!
