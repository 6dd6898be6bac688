//! Executable counterparts of the path algebra, working on strings.

use crate::algebra::{join, lemma_split_push, normalized, render, resolve, retain, split};
use vstd::prelude::*;

verus! {

/// `String::push` appends one character to the end of the string, as the
/// standard library documents it. Nothing else about the string changes.
pub assume_specification[ String::push ](text: &mut String, c: char)
    ensures
        final(text)@ == old(text)@.push(c),
;

/// The texts that a sequence of string slices holds.
pub open spec fn texts(parts: Seq<&str>) -> Seq<Seq<char>> {
    Seq::new(parts.len(), |i: int| parts[i]@)
}

/// The texts that a sequence of character buffers holds.
pub open spec fn rows(buffers: Seq<Vec<char>>) -> Seq<Seq<char>> {
    Seq::new(buffers.len(), |i: int| buffers[i]@)
}

/// Splits `text` at every `/` into slices of `text` itself.
pub fn segments(text: &str) -> (parts: Vec<&str>)
    ensures
        texts(parts@) == split(text@),
{
    broadcast use vstd::string::axiom_spec_iter;

    let total = text.unicode_len();
    let mut parts: Vec<&str> = Vec::new();
    let mut start: usize = 0;
    let mut i: usize = 0;
    proof {
        assert(text@.take(0) =~= Seq::<char>::empty());
        assert(text@.subrange(0, 0) =~= Seq::<char>::empty());
        assert(texts(parts@).push(Seq::<char>::empty()) =~= seq![Seq::<char>::empty()]);
    }
    for c in it: text.chars()
        invariant
            it.seq() == text@,
            total == text@.len(),
            i == it.index(),
            start <= i <= total,
            split(text@.take(i as int)) == texts(parts@).push(
                text@.subrange(start as int, i as int),
            ),
    {
        let ghost seen = text@.take(i as int);
        let ghost done = texts(parts@);
        let ghost current = text@.subrange(start as int, i as int);
        proof {
            lemma_split_push(seen, c);
            assert(seen.push(c) =~= text@.take(i + 1));
            assert(done.push(current).drop_last() =~= done);
        }
        if c == '/' {
            let part = text.substring_char(start, i);
            parts.push(part);
            start = i + 1;
            proof {
                assert(texts(parts@) =~= done.push(current));
                assert(text@.subrange(start as int, i + 1) =~= Seq::<char>::empty());
            }
        } else {
            proof {
                assert(current.push(c) =~= text@.subrange(start as int, i + 1));
            }
        }
        i = i + 1;
    }
    let ghost done = texts(parts@);
    let last = text.substring_char(start, total);
    parts.push(last);
    proof {
        assert(text@.take(total as int) =~= text@);
        assert(texts(parts@) =~= done.push(text@.subrange(start as int, total as int)));
    }
    parts
}

/// Applies one segment to the components kept so far.
pub fn keep(kept: &mut Vec<Vec<char>>, part: Vec<char>)
    ensures
        rows(final(kept)@) == retain(rows(old(kept)@), part@),
{
    let ghost before = rows(kept@);
    let len = part.len();
    if len == 0 || (len == 1 && part[0] == '.') {
    } else if len == 2 && part[0] == '.' && part[1] == '.' {
        if kept.len() > 0 {
            kept.pop();
            proof {
                assert(rows(kept@) =~= before.drop_last());
            }
        }
    } else {
        let ghost added = part@;
        kept.push(part);
        proof {
            assert(rows(kept@) =~= before.push(added));
        }
    }
}

/// Writes out the path that has the given components.
pub fn render_text(components: &Vec<Vec<char>>) -> (text: String)
    ensures
        text@ == render(rows(components@)),
{
    let mut text = String::new();
    if components.len() == 0 {
        text.push('/');
        proof {
            assert(text@ =~= seq!['/']);
        }
        return text;
    }
    let ghost all = rows(components@);
    proof {
        assert(all.take(0) =~= Seq::<Seq<char>>::empty());
        assert(join(Seq::<Seq<char>>::empty()) =~= Seq::<char>::empty());
    }
    let mut k: usize = 0;
    while k < components.len()
        invariant
            k <= components.len(),
            all == rows(components@),
            text@ == join(all.take(k as int)),
        decreases components.len() - k,
    {
        let component = &components[k];
        let ghost head = text@;
        text.push('/');
        let mut j: usize = 0;
        while j < component.len()
            invariant
                j <= component.len(),
                text@ == head + seq!['/'] + component@.take(j as int),
            decreases component.len() - j,
        {
            text.push(component[j]);
            proof {
                assert(component@.take(j as int).push(component@[j as int]) =~= component@.take(
                    j + 1,
                ));
            }
            j = j + 1;
        }
        proof {
            assert(component@.take(component.len() as int) =~= component@);
            assert(all.take(k + 1).drop_last() =~= all.take(k as int));
            assert(all.take(k + 1).last() == component@);
        }
        k = k + 1;
    }
    proof {
        assert(all.take(components.len() as int) =~= all);
    }
    text
}

/// Writes out the path that has the given components, each a string slice.
pub fn render_parts(components: &Vec<&str>) -> (text: String)
    ensures
        text@ == render(texts(components@)),
{
    broadcast use vstd::string::axiom_spec_iter;

    let mut text = String::new();
    if components.len() == 0 {
        text.push('/');
        proof {
            assert(text@ =~= seq!['/']);
        }
        return text;
    }
    let ghost all = texts(components@);
    proof {
        assert(all.take(0) =~= Seq::<Seq<char>>::empty());
        assert(join(Seq::<Seq<char>>::empty()) =~= Seq::<char>::empty());
    }
    let mut k: usize = 0;
    while k < components.len()
        invariant
            k <= components.len(),
            all == texts(components@),
            text@ == join(all.take(k as int)),
        decreases components.len() - k,
    {
        let component: &str = components[k];
        let ghost head = text@;
        text.push('/');
        for c in it: component.chars()
            invariant
                it.seq() == component@,
                text@ == head + seq!['/'] + component@.take(it.index()),
        {
            text.push(c);
            proof {
                assert(component@.take(it.index()).push(c) =~= component@.take(it.index() + 1));
            }
        }
        proof {
            assert(component@.take(component@.len() as int) =~= component@);
            assert(all.take(k + 1).drop_last() =~= all.take(k as int));
            assert(all.take(k + 1).last() == component@);
        }
        k = k + 1;
    }
    proof {
        assert(all.take(components.len() as int) =~= all);
    }
    text
}

/// The canonical text that `value` denotes: segments are applied from left
/// to right, `.` and empty segments are dropped, `..` removes the component
/// before it or is dropped at the root.
pub fn normalize_text(value: &str) -> (text: String)
    ensures
        text@ == normalized(value@),
{
    broadcast use vstd::string::axiom_spec_iter;

    let mut kept: Vec<Vec<char>> = Vec::new();
    let mut part: Vec<char> = Vec::new();
    proof {
        let empty = Seq::<char>::empty();
        assert(value@.take(0) =~= empty);
        assert(split(empty) =~= seq![empty]);
        assert(seq![empty].drop_last() =~= Seq::<Seq<char>>::empty());
        assert(rows(kept@) =~= Seq::<Seq<char>>::empty());
    }
    for c in it: value.chars()
        invariant
            it.seq() == value@,
            split(value@.take(it.index())).len() >= 1,
            part@ == split(value@.take(it.index())).last(),
            rows(kept@) == resolve(split(value@.take(it.index())).drop_last()),
    {
        let ghost seen = value@.take(it.index());
        proof {
            lemma_split_push(seen, c);
            assert(seen.push(c) =~= value@.take(it.index() + 1));
        }
        if c == '/' {
            keep(&mut kept, part);
            part = Vec::new();
            proof {
                assert(split(seen).push(Seq::<char>::empty()).drop_last() =~= split(seen));
            }
        } else {
            part.push(c);
            proof {
                let grown = split(seen).drop_last().push(split(seen).last().push(c));
                assert(grown.drop_last() =~= split(seen).drop_last());
            }
        }
    }
    proof {
        assert(value@.take(value@.len() as int) =~= value@);
    }
    keep(&mut kept, part);
    render_text(&kept)
}

/// Whether two string slices hold the same text.
pub fn same_text(a: &str, b: &str) -> (same: bool)
    ensures
        same == (a@ == b@),
{
    broadcast use vstd::string::axiom_spec_iter;

    let len_a = a.unicode_len();
    let len_b = b.unicode_len();
    if len_a != len_b {
        return false;
    }
    let mut i: usize = 0;
    for c in it: a.chars()
        invariant
            it.seq() == a@,
            i == it.index(),
            len_a == a@.len(),
            len_b == b@.len(),
            len_a == len_b,
            a@.take(i as int) == b@.take(i as int),
    {
        if b.get_char(i) != c {
            return false;
        }
        proof {
            assert(a@.take(i + 1) =~= a@.take(i as int).push(c));
            assert(b@.take(i + 1) =~= b@.take(i as int).push(c));
        }
        i = i + 1;
    }
    proof {
        assert(a@.take(len_a as int) =~= a@);
        assert(b@.take(len_b as int) =~= b@);
    }
    true
}

/// The character of the decimal digit `digit`.
pub open spec fn digit_char(digit: nat) -> char {
    if digit == 0 {
        '0'
    } else if digit == 1 {
        '1'
    } else if digit == 2 {
        '2'
    } else if digit == 3 {
        '3'
    } else if digit == 4 {
        '4'
    } else if digit == 5 {
        '5'
    } else if digit == 6 {
        '6'
    } else if digit == 7 {
        '7'
    } else if digit == 8 {
        '8'
    } else {
        '9'
    }
}

/// The decimal digits of `n`, most significant first, without leading
/// zeros; `0` is the single digit `0`.
pub open spec fn decimal_of(n: nat) -> Seq<char>
    decreases n,
{
    if n < 10 {
        seq![digit_char(n)]
    } else {
        decimal_of(n / 10).push(digit_char(n % 10))
    }
}

/// The character of a decimal digit.
fn digit(value: u64) -> (c: char)
    requires
        value < 10,
    ensures
        c == digit_char(value as nat),
{
    if value == 0 {
        '0'
    } else if value == 1 {
        '1'
    } else if value == 2 {
        '2'
    } else if value == 3 {
        '3'
    } else if value == 4 {
        '4'
    } else if value == 5 {
        '5'
    } else if value == 6 {
        '6'
    } else if value == 7 {
        '7'
    } else if value == 8 {
        '8'
    } else {
        '9'
    }
}

/// Writes `n` in decimal.
pub fn decimal(n: u64) -> (text: String)
    ensures
        text@ == decimal_of(n as nat),
{
    let mut reversed: Vec<char> = Vec::new();
    let mut rest: u64 = n;
    while rest >= 10
        invariant
            decimal_of(n as nat) == decimal_of(rest as nat) + reversed@.reverse(),
        decreases rest,
    {
        let ghost earlier = reversed@;
        reversed.push(digit(rest % 10));
        proof {
            let last = digit_char((rest % 10) as nat);
            assert(reversed@.reverse() =~= seq![last] + earlier.reverse());
            assert(decimal_of(rest as nat) == decimal_of((rest / 10) as nat).push(last));
            assert(decimal_of((rest / 10) as nat).push(last) + earlier.reverse() =~= decimal_of(
                (rest / 10) as nat,
            ) + (seq![last] + earlier.reverse()));
        }
        rest = rest / 10;
    }
    let mut text = String::new();
    text.push(digit(rest));
    let mut k: usize = reversed.len();
    let ghost tail = reversed@.reverse();
    while k > 0
        invariant
            k <= reversed.len(),
            tail == reversed@.reverse(),
            text@ == decimal_of(rest as nat) + tail.take(reversed.len() - k),
            rest < 10,
        decreases k,
    {
        k = k - 1;
        text.push(reversed[k]);
        proof {
            let done = reversed.len() - k - 1;
            assert(tail[done] == reversed@[k as int]);
            assert(tail.take(done).push(tail[done]) =~= tail.take(done + 1));
        }
    }
    proof {
        assert(tail.take(reversed.len() as int) =~= tail);
    }
    text
}

/// Where two texts stand to one another in the order of a dictionary whose
/// alphabet is that of the character codes: the first place where they
/// differ decides, and a text comes before every text that it starts.
/// Negative for "before", zero for "equal", positive for "after".
pub open spec fn text_order(a: Seq<char>, b: Seq<char>) -> int
    decreases a.len(),
{
    if a.len() == 0 && b.len() == 0 {
        0
    } else if a.len() == 0 {
        -1
    } else if b.len() == 0 {
        1
    } else if a[0] == b[0] {
        text_order(a.drop_first(), b.drop_first())
    } else if (a[0] as int) < (b[0] as int) {
        -1
    } else {
        1
    }
}

/// The code of a character.
pub fn code(c: char) -> (value: u32)
    ensures
        value == c as int,
{
    c as u32
}

/// The order of two texts that start alike is the order of what follows.
pub proof fn lemma_text_order_skip(a: Seq<char>, b: Seq<char>, k: int)
    requires
        0 <= k <= a.len(),
        k <= b.len(),
        a.take(k) == b.take(k),
    ensures
        text_order(a, b) == text_order(a.skip(k), b.skip(k)),
    decreases k,
{
    if k == 0 {
        assert(a.skip(0) =~= a);
        assert(b.skip(0) =~= b);
    } else {
        assert(a.take(k)[0] == a[0]);
        assert(b.take(k)[0] == b[0]);
        assert(a.drop_first().take(k - 1) =~= a.take(k).drop_first());
        assert(b.drop_first().take(k - 1) =~= b.take(k).drop_first());
        lemma_text_order_skip(a.drop_first(), b.drop_first(), k - 1);
        assert(a.drop_first().skip(k - 1) =~= a.skip(k));
        assert(b.drop_first().skip(k - 1) =~= b.skip(k));
    }
}

/// Two texts are equal in the order exactly when they are the same text.
pub proof fn lemma_text_order_equal(a: Seq<char>, b: Seq<char>)
    ensures
        text_order(a, b) == 0 <==> a == b,
    decreases a.len(),
{
    if a.len() == 0 || b.len() == 0 {
        if a.len() == 0 && b.len() == 0 {
            assert(a =~= b);
        }
    } else {
        lemma_text_order_equal(a.drop_first(), b.drop_first());
        if a[0] == b[0] && a.drop_first() == b.drop_first() {
            assert(a =~= seq![a[0]] + a.drop_first());
            assert(b =~= seq![b[0]] + b.drop_first());
        }
    }
}

/// Turning two texts round turns their order round.
pub proof fn lemma_text_order_turned(a: Seq<char>, b: Seq<char>)
    ensures
        text_order(a, b) < 0 <==> text_order(b, a) > 0,
        text_order(a, b) == 0 <==> text_order(b, a) == 0,
    decreases a.len(),
{
    if a.len() > 0 && b.len() > 0 {
        lemma_text_order_turned(a.drop_first(), b.drop_first());
        if a[0] != b[0] {
            assert(a[0] as int != b[0] as int);
        }
    }
}

/// Compares two texts as a dictionary does; see [`text_order`]. The answer
/// is -1, 0 or 1.
pub fn order_texts(a: &str, b: &str) -> (order: i8)
    ensures
        order == text_order(a@, b@),
        -1 <= order <= 1,
{
    broadcast use vstd::string::axiom_spec_iter;

    let len_b = b.unicode_len();
    let mut i: usize = 0;
    for c in it: a.chars()
        invariant
            it.seq() == a@,
            i == it.index(),
            len_b == b@.len(),
            i <= len_b,
            a@.take(i as int) == b@.take(i as int),
    {
        proof {
            lemma_text_order_skip(a@, b@, i as int);
        }
        if i == len_b {
            proof {
                assert(b@.skip(i as int).len() == 0);
                assert(a@.skip(i as int).len() > 0);
            }
            return 1;
        }
        let d = b.get_char(i);
        proof {
            assert(a@.skip(i as int)[0] == c);
            assert(b@.skip(i as int)[0] == d);
        }
        if c != d {
            if code(c) < code(d) {
                return -1;
            } else {
                return 1;
            }
        }
        proof {
            assert(a@.take(i + 1) =~= a@.take(i as int).push(c));
            assert(b@.take(i + 1) =~= b@.take(i as int).push(d));
        }
        i = i + 1;
    }
    proof {
        lemma_text_order_skip(a@, b@, i as int);
        assert(a@.skip(i as int).len() == 0);
    }
    if i == len_b {
        0
    } else {
        -1
    }
}

} // verus!
