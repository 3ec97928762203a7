//! The stored form of a list: each item followed by a newline.
use vstd::prelude::*;
use vstd::string::*;
use crate::text::chars_of;
use crate::wrap::lines_view;

verus! {

/// Each item followed by a newline, in order.
pub open spec fn list_text(items: Seq<Seq<char>>) -> Seq<char>
    decreases items.len(),
{
    if items.len() == 0 {
        Seq::empty()
    } else {
        items[0] + seq!['\n'] + list_text(items.drop_first())
    }
}

/// Index of the first newline at or after `i`, or the length.
pub open spec fn find_nl(t: Seq<char>, i: int) -> int
    decreases t.len() - i,
{
    if 0 <= i < t.len() && t[i] != '\n' {
        find_nl(t, i + 1)
    } else {
        i
    }
}

/// A line ended by a newline loses one carriage return before it.
pub open spec fn strip_cr(l: Seq<char>) -> Seq<char> {
    if l.len() > 0 && l.last() == '\r' {
        l.drop_last()
    } else {
        l
    }
}

pub proof fn lemma_find_nl(t: Seq<char>, i: int)
    requires
        0 <= i <= t.len(),
    ensures
        i <= find_nl(t, i) <= t.len(),
        forall|k: int| i <= k < find_nl(t, i) ==> #[trigger] t[k] != '\n',
        find_nl(t, i) < t.len() ==> t[find_nl(t, i)] == '\n',
    decreases t.len() - i,
{
    if i < t.len() && t[i] != '\n' {
        lemma_find_nl(t, i + 1);
    }
}

/// The lines of `t` from index `i` on: text up to each newline, without a
/// carriage return just before it, and a last line with no newline after it
/// when the text does not end in one.
pub open spec fn lines_from(t: Seq<char>, i: int) -> Seq<Seq<char>>
    decreases t.len() - i,
{
    if i < 0 || i >= t.len() {
        Seq::empty()
    } else {
        let e = find_nl(t, i);
        proof {
            lemma_find_nl(t, i);
        }
        if e < t.len() {
            seq![strip_cr(t.subrange(i, e))] + lines_from(t, e + 1)
        } else {
            seq![t.subrange(i, t.len() as int)]
        }
    }
}

/// An item that a line can hold and give back: no newline in it, and no
/// carriage return at its end.
pub open spec fn storable(item: Seq<char>) -> bool {
    &&& forall|k: int| 0 <= k < item.len() ==> #[trigger] item[k] != '\n'
    &&& item.len() > 0 ==> item.last() != '\r'
}

proof fn lemma_list_text_push(items: Seq<Seq<char>>, x: Seq<char>)
    ensures
        list_text(items.push(x)) == list_text(items) + x + seq!['\n'],
    decreases items.len(),
{
    if items.len() > 0 {
        lemma_list_text_push(items.drop_first(), x);
        assert(items.push(x).drop_first() =~= items.drop_first().push(x));
        assert(items.push(x)[0] == items[0]);
        let r = list_text(items.drop_first());
        assert(list_text(items.push(x)) == items[0] + seq!['\n'] + (r + x + seq!['\n']));
        assert(list_text(items) == items[0] + seq!['\n'] + r);
        assert(list_text(items.push(x)) =~= list_text(items) + x + seq!['\n']);
    } else {
        assert(items.push(x).drop_first() =~= Seq::<Seq<char>>::empty());
        assert(list_text(items.push(x).drop_first()) == Seq::<char>::empty());
        assert(items.push(x)[0] == x);
        assert(list_text(items.push(x)) =~= list_text(items) + x + seq!['\n']);
    }
}

proof fn lemma_lines_of_list_text(t: Seq<char>, i: int, items: Seq<Seq<char>>)
    requires
        0 <= i <= t.len(),
        t.subrange(i, t.len() as int) == list_text(items),
        forall|j: int| 0 <= j < items.len() ==> storable(#[trigger] items[j]),
    ensures
        lines_from(t, i) == items,
    decreases items.len(),
{
    if items.len() > 0 {
        let first = items[0];
        let l = first.len() as int;
        let rest = items.drop_first();
        assert(storable(items[0]));
        assert(t.subrange(i, t.len() as int) == first + seq!['\n'] + list_text(rest));
        assert forall|k: int| i <= k < i + l implies t[k] != '\n' by {
            assert(t[k] == t.subrange(i, t.len() as int)[k - i]);
        }
        assert(t[i + l] == t.subrange(i, t.len() as int)[l]);
        lemma_find_nl(t, i);
        let e = find_nl(t, i);
        assert(e == i + l);
        assert(t.subrange(i, e) =~= first);
        assert forall|k: int| 0 <= k < list_text(rest).len() implies t.subrange(
            e + 1,
            t.len() as int,
        )[k] == list_text(rest)[k] by {
            assert(t[e + 1 + k] == t.subrange(i, t.len() as int)[l + 1 + k]);
        }
        assert(t.subrange(e + 1, t.len() as int) =~= list_text(rest));
        assert forall|j: int| 0 <= j < rest.len() implies storable(#[trigger] rest[j]) by {
            assert(rest[j] == items[j + 1]);
        }
        lemma_lines_of_list_text(t, e + 1, rest);
        assert(lines_from(t, i) =~= items);
    } else {
        assert(t.subrange(i, t.len() as int).len() == 0);
    }
}

/// Reading back the stored form of items that hold no newline and end in no
/// carriage return gives the same items, in the same order.
pub proof fn lemma_save_load_round_trip(items: Seq<Seq<char>>)
    requires
        forall|j: int| 0 <= j < items.len() ==> storable(#[trigger] items[j]),
    ensures
        lines_from(list_text(items), 0) == items,
{
    let t = list_text(items);
    assert(t.subrange(0, t.len() as int) =~= t);
    lemma_lines_of_list_text(t, 0, items);
}

/// Index of the first newline at or after `i`, or the length.
fn find_newline(cs: &Vec<char>, i: usize) -> (r: usize)
    requires
        i <= cs@.len(),
    ensures
        r == find_nl(cs@, i as int),
{
    let mut j = i;
    while j < cs.len() && cs[j] != '\n'
        invariant
            i <= j <= cs@.len(),
            find_nl(cs@, j as int) == find_nl(cs@, i as int),
        decreases cs@.len() - j,
    {
        j += 1;
    }
    j
}

/// The stored form of a list: every item followed by a newline.
pub fn save_list(list: &Vec<String>) -> (r: String)
    ensures
        r@ == list_text(lines_view(list@)),
{
    let mut out = String::new();
    let mut i: usize = 0;
    proof {
        reveal_strlit("\n");
        assert(lines_view(list@).take(0) =~= Seq::<Seq<char>>::empty());
    }
    while i < list.len()
        invariant
            i <= list@.len(),
            out@ == list_text(lines_view(list@).take(i as int)),
        decreases list@.len() - i,
    {
        out.append(list[i].as_str());
        out.append("\n");
        proof {
            reveal_strlit("\n");
            lemma_list_text_push(lines_view(list@).take(i as int), list@[i as int]@);
            assert(lines_view(list@).take(i + 1) =~= lines_view(list@).take(i as int).push(
                list@[i as int]@,
            ));
        }
        i += 1;
    }
    assert(lines_view(list@).take(i as int) =~= lines_view(list@));
    out
}

/// The items held in the stored text of a list, one per line.
pub fn load_list(text: &str) -> (r: Vec<String>)
    ensures
        lines_view(r@) == lines_from(text@, 0),
{
    let cs = chars_of(text);
    let n = cs.len();
    let mut res: Vec<String> = Vec::new();
    let mut i: usize = 0;
    while i < n
        invariant
            cs@ == text@,
            n == cs@.len(),
            i <= n,
            lines_view(res@) + lines_from(text@, i as int) == lines_from(text@, 0),
        decreases n - i,
    {
        let e = find_newline(&cs, i);
        proof {
            lemma_find_nl(cs@, i as int);
        }
        let ghost before = res@;
        if e < n {
            let end = if e > i && cs[e - 1] == '\r' {
                e - 1
            } else {
                e
            };
            res.push(String::from_str(text.substring_char(i, end)));
            proof {
                assert(strip_cr(text@.subrange(i as int, e as int)) =~= text@.subrange(
                    i as int,
                    end as int,
                ));
                assert(lines_view(res@) =~= lines_view(before).push(text@.subrange(i as int, end as int)));
                assert(lines_from(text@, i as int) == seq![text@.subrange(i as int, end as int)]
                    + lines_from(text@, e + 1));
                assert(lines_view(res@) + lines_from(text@, e + 1) =~= lines_view(before)
                    + lines_from(text@, i as int));
            }
            i = e + 1;
        } else {
            res.push(String::from_str(text.substring_char(i, n)));
            proof {
                assert(lines_view(res@) =~= lines_view(before) + lines_from(text@, i as int));
                assert(lines_from(text@, n as int) =~= Seq::<Seq<char>>::empty());
                assert(lines_view(res@) + lines_from(text@, n as int) =~= lines_view(res@));
            }
            i = n;
        }
    }
    assert(lines_from(text@, i as int) =~= Seq::<Seq<char>>::empty());
    assert(lines_view(res@) + lines_from(text@, i as int) =~= lines_view(res@));
    res
}

/// What printing the stored pending list shows: its items, one per line.
pub fn print_todo(stored: &str) -> (r: String)
    ensures
        r@ == list_text(lines_from(stored@, 0)),
{
    save_list(&load_list(stored))
}

/// What printing the stored done list shows: its items, one per line.
pub fn print_done(stored: &str) -> (r: String)
    ensures
        r@ == list_text(lines_from(stored@, 0)),
{
    save_list(&load_list(stored))
}

} // verus!
