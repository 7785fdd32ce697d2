//! The line model of the stack file.
//!
//! A stack file is text whose newline-delimited lines are the stack's
//! items in push order; the last line is the top. `spec_lines` says how
//! text splits into lines, `encode_items` how a sequence of items is
//! written back, and the lemmas here relate the two.

use vstd::prelude::*;

verus! {

/// The line terminator: one line-feed character.
pub open spec fn newline() -> Seq<char> {
    seq!['\n']
}

/// A value that can stand as one line: it holds no embedded newline.
pub open spec fn valid_item(item: Seq<char>) -> bool {
    !item.contains('\n')
}

/// Every item of the sequence can stand as one line.
pub open spec fn valid_items(items: Seq<Seq<char>>) -> bool {
    forall|j: int| 0 <= j < items.len() ==> valid_item(#[trigger] items[j])
}

/// The lines of a text: maximal runs of characters between newlines.
/// A trailing newline closes the final line rather than opening an
/// empty one, so `"a\nb"` and `"a\nb\n"` both split into `a`, `b`.
pub open spec fn spec_lines(s: Seq<char>) -> Seq<Seq<char>>
    decreases s.len(),
{
    if s.len() == 0 {
        Seq::empty()
    } else if s[0] == '\n' {
        seq![Seq::<char>::empty()] + spec_lines(s.skip(1))
    } else {
        let rest = spec_lines(s.skip(1));
        if rest.len() == 0 {
            seq![seq![s[0]]]
        } else {
            seq![seq![s[0]] + rest[0]] + rest.skip(1)
        }
    }
}

/// The text that stores the given items: each item followed by one newline.
pub open spec fn encode_items(items: Seq<Seq<char>>) -> Seq<char>
    decreases items.len(),
{
    if items.len() == 0 {
        Seq::empty()
    } else {
        items[0] + newline() + encode_items(items.skip(1))
    }
}

/// The lines a pop retains: all but the last, and nothing of an empty stack.
pub open spec fn spec_retained(items: Seq<Seq<char>>) -> Seq<Seq<char>> {
    if items.len() == 0 {
        items
    } else {
        items.drop_last()
    }
}

/// What one pop leaves in the stack file: the retained lines, re-encoded.
pub open spec fn spec_pop(s: Seq<char>) -> Seq<char> {
    encode_items(spec_retained(spec_lines(s)))
}

/// The stack file after `n` pops in a row.
pub open spec fn spec_pop_n(s: Seq<char>, n: nat) -> Seq<char>
    decreases n,
{
    if n == 0 {
        s
    } else {
        spec_pop(spec_pop_n(s, (n - 1) as nat))
    }
}

/// Splitting a newline-free text yields that text as its only line
/// (or no line at all, if the text is empty).
pub proof fn lemma_lines_no_newline(s: Seq<char>)
    requires
        !s.contains('\n'),
        s.len() > 0,
    ensures
        spec_lines(s) == seq![s],
    decreases s.len(),
{
    assert(s[0] != '\n');
    if s.len() == 1 {
        assert(spec_lines(s.skip(1)) == Seq::<Seq<char>>::empty());
        assert(seq![s[0]] =~= s);
        assert(spec_lines(s) =~= seq![s]);
    } else {
        assert(forall|j: int| 0 <= j < s.skip(1).len() ==> s.skip(1)[j] == s[j + 1]);
        assert(!s.skip(1).contains('\n')) by {
            if s.skip(1).contains('\n') {
                let j = choose|j: int| 0 <= j < s.skip(1).len() && s.skip(1)[j] == '\n';
                assert(s[j + 1] == '\n');
            }
        }
        lemma_lines_no_newline(s.skip(1));
        assert(spec_lines(s.skip(1)) == seq![s.skip(1)]);
        assert(seq![s[0]] + s.skip(1) =~= s);
        assert(spec_lines(s) =~= seq![s]);
    }
}

/// A newline-free prefix closed by a newline is the first line; the
/// remainder splits on its own.
pub proof fn lemma_lines_newline_concat(p: Seq<char>, t: Seq<char>)
    requires
        !p.contains('\n'),
    ensures
        spec_lines(p + newline() + t) == seq![p] + spec_lines(t),
    decreases p.len(),
{
    let s = p + newline() + t;
    if p.len() == 0 {
        assert(s =~= newline() + t);
        assert(s[0] == '\n');
        assert(s.skip(1) =~= t);
        assert(p =~= Seq::<char>::empty());
        assert(seq![Seq::<char>::empty()] + spec_lines(t) == seq![p] + spec_lines(t));
    } else {
        assert(s[0] == p[0]);
        assert(s[0] != '\n');
        assert(!p.skip(1).contains('\n')) by {
            if p.skip(1).contains('\n') {
                let j = choose|j: int| 0 <= j < p.skip(1).len() && p.skip(1)[j] == '\n';
                assert(p[j + 1] == '\n');
            }
        }
        lemma_lines_newline_concat(p.skip(1), t);
        assert(s.skip(1) =~= p.skip(1) + newline() + t);
        let rest = spec_lines(s.skip(1));
        assert(rest == seq![p.skip(1)] + spec_lines(t));
        assert(rest.len() > 0);
        assert(rest[0] == p.skip(1));
        assert(seq![s[0]] + rest[0] =~= p);
        assert(rest.skip(1) =~= spec_lines(t));
        assert(spec_lines(s) =~= seq![p] + spec_lines(t));
    }
}

/// Splitting the stored text of valid items gives back exactly those items.
pub proof fn lemma_lines_of_encode(items: Seq<Seq<char>>)
    requires
        valid_items(items),
    ensures
        spec_lines(encode_items(items)) == items,
    decreases items.len(),
{
    if items.len() == 0 {
        assert(spec_lines(encode_items(items)) =~= items);
    } else {
        assert(valid_item(items[0]));
        assert(valid_items(items.skip(1))) by {
            assert(forall|j: int|
                0 <= j < items.skip(1).len() ==> #[trigger] items.skip(1)[j] == items[j + 1]);
        }
        lemma_lines_of_encode(items.skip(1));
        lemma_lines_newline_concat(items[0], encode_items(items.skip(1)));
        assert(encode_items(items) == items[0] + newline() + encode_items(items.skip(1)));
        assert(spec_lines(encode_items(items)) == seq![items[0]] + items.skip(1));
        assert(seq![items[0]] + items.skip(1) =~= items);
    }
}

/// Appending one item to the stored text stores the extended item sequence.
pub proof fn lemma_encode_push(items: Seq<Seq<char>>, x: Seq<char>)
    ensures
        encode_items(items.push(x)) == encode_items(items) + x + newline(),
    decreases items.len(),
{
    if items.len() == 0 {
        assert(items.push(x)[0] == x);
        assert(items.push(x).skip(1) =~= Seq::<Seq<char>>::empty());
        assert(encode_items(items.push(x).skip(1)) == Seq::<char>::empty());
        assert(encode_items(items.push(x)) == x + newline() + Seq::<char>::empty());
        assert(x + newline() + Seq::<char>::empty() =~= x + newline());
        assert(encode_items(items) + x + newline() =~= x + newline());
    } else {
        assert(items.push(x)[0] == items[0]);
        assert(items.push(x).skip(1) =~= items.skip(1).push(x));
        lemma_encode_push(items.skip(1), x);
        assert(encode_items(items.push(x)) == items[0] + newline() + (encode_items(items.skip(1))
            + x + newline()));
        assert(items[0] + newline() + (encode_items(items.skip(1)) + x + newline()) =~= (items[0]
            + newline() + encode_items(items.skip(1))) + x + newline());
    }
}

/// Splits a text into its lines, in file order.
pub fn split_lines(s: &str) -> (r: Vec<String>)
    ensures
        r.deep_view() == spec_lines(s@),
{
    let len = s.unicode_len();
    let mut r: Vec<String> = Vec::new();
    let mut start: usize = 0;
    let mut i: usize = 0;
    proof {
        assert(s@.skip(0) =~= s@);
    }
    while i < len
        invariant
            len == s@.len(),
            start <= i <= len,
            forall|j: int| start <= j < i ==> s@[j] != '\n',
            spec_lines(s@) == r.deep_view() + spec_lines(s@.skip(start as int)),
        decreases len - i,
    {
        if s.get_char(i) == '\n' {
            let line = String::from_str(s.substring_char(start, i));
            proof {
                let seg = s@.subrange(start as int, i as int);
                assert(!seg.contains('\n')) by {
                    if seg.contains('\n') {
                        let j = choose|j: int| 0 <= j < seg.len() && seg[j] == '\n';
                        assert(s@[start + j] == '\n');
                    }
                }
                lemma_lines_newline_concat(seg, s@.skip(i + 1));
                assert(s@.skip(start as int) =~= seg + newline() + s@.skip(i + 1));
                assert((r.deep_view() + seq![seg]) + spec_lines(s@.skip(i + 1))
                    =~= r.deep_view() + (seq![seg] + spec_lines(s@.skip(i + 1))));
            }
            let ghost prev = r.deep_view();
            r.push(line);
            proof {
                assert(r.deep_view() =~= prev.push(line@));
                assert(prev.push(line@) =~= prev + seq![line@]);
            }
            start = i + 1;
        }
        i = i + 1;
    }
    if start < len {
        let line = String::from_str(s.substring_char(start, len));
        proof {
            let seg = s@.subrange(start as int, len as int);
            assert(!seg.contains('\n')) by {
                if seg.contains('\n') {
                    let j = choose|j: int| 0 <= j < seg.len() && seg[j] == '\n';
                    assert(s@[start + j] == '\n');
                }
            }
            assert(seg =~= s@.skip(start as int));
            lemma_lines_no_newline(seg);
        }
        let ghost prev = r.deep_view();
        r.push(line);
        proof {
            assert(r.deep_view() =~= prev.push(line@));
            assert(prev + seq![line@] =~= prev.push(line@));
        }
    } else {
        proof {
            assert(s@.skip(start as int) =~= Seq::<char>::empty());
            assert(r.deep_view() + spec_lines(Seq::<char>::empty()) =~= r.deep_view());
        }
    }
    r
}

/// Every element of a prefix of a valid item sequence is itself valid.
proof fn lemma_valid_items_take(items: Seq<Seq<char>>, n: int)
    requires
        valid_items(items),
        0 <= n <= items.len(),
    ensures
        valid_items(items.take(n)),
{
    assert(forall|j: int| 0 <= j < n ==> #[trigger] items.take(n)[j] == items[j]);
}

/// One pop on the stored text of valid items stores all items but the last.
pub proof fn lemma_pop_of_stack(items: Seq<Seq<char>>)
    requires
        valid_items(items),
    ensures
        spec_pop(encode_items(items)) == encode_items(spec_retained(items)),
{
    lemma_lines_of_encode(items);
}

/// Law: after a push, the top of the stack file is the pushed item, and
/// the lines are exactly the old lines followed by it (last in, first read).
pub proof fn lemma_top_after_push(items: Seq<Seq<char>>, x: Seq<char>)
    requires
        valid_items(items),
        valid_item(x),
    ensures
        spec_lines(encode_items(items) + x + newline()) == items.push(x),
        spec_lines(encode_items(items) + x + newline()).len() > 0,
        spec_lines(encode_items(items) + x + newline()).last() == x,
{
    lemma_encode_push(items, x);
    assert(valid_items(items.push(x))) by {
        assert(forall|j: int|
            0 <= j < items.len() ==> #[trigger] items.push(x)[j] == items[j]);
        assert(items.push(x)[items.len() as int] == x);
    }
    lemma_lines_of_encode(items.push(x));
}

/// Law: pushing an item and then popping restores the stack file exactly,
/// items and order alike.
pub proof fn lemma_push_then_pop_restores(items: Seq<Seq<char>>, x: Seq<char>)
    requires
        valid_items(items),
        valid_item(x),
    ensures
        spec_pop(encode_items(items) + x + newline()) == encode_items(items),
{
    lemma_encode_push(items, x);
    assert(valid_items(items.push(x))) by {
        assert(forall|j: int|
            0 <= j < items.len() ==> #[trigger] items.push(x)[j] == items[j]);
        assert(items.push(x)[items.len() as int] == x);
    }
    lemma_pop_of_stack(items.push(x));
    assert(items.push(x).drop_last() =~= items);
}

/// After `n` pops, a stack of valid items stores its first `len - n` items.
pub proof fn lemma_pop_n_on_stack(items: Seq<Seq<char>>, n: nat)
    requires
        valid_items(items),
        n <= items.len(),
    ensures
        spec_pop_n(encode_items(items), n) == encode_items(items.take(items.len() - n)),
    decreases n,
{
    if n == 0 {
        assert(items.take(items.len() - 0) =~= items);
    } else {
        lemma_pop_n_on_stack(items, (n - 1) as nat);
        let k = items.len() - n + 1;
        lemma_valid_items_take(items, k as int);
        lemma_pop_of_stack(items.take(k as int));
        assert(items.take(k as int).drop_last() =~= items.take(items.len() - n));
    }
}

/// Law: popping as often as the stack has items empties the stack file,
/// and every further pop leaves it empty (a no-op at the empty boundary).
pub proof fn lemma_pop_reaches_empty(items: Seq<Seq<char>>, n: nat)
    requires
        valid_items(items),
        n >= items.len(),
    ensures
        spec_pop_n(encode_items(items), n) == Seq::<char>::empty(),
    decreases n,
{
    if n == items.len() {
        lemma_pop_n_on_stack(items, n);
        assert(items.take(0) =~= Seq::<Seq<char>>::empty());
    } else {
        lemma_pop_reaches_empty(items, (n - 1) as nat);
        assert(spec_lines(Seq::<char>::empty()) == Seq::<Seq<char>>::empty());
        assert(spec_pop(Seq::<char>::empty()) == Seq::<char>::empty());
    }
}

} // verus!
