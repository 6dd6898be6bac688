//! The mathematics of paths: text is a sequence of characters, a path is a
//! sequence of components, and normalization maps the first onto the second.
//!
//! Everything here is specification and proof. The executable operations of
//! [`crate::path::AbsolutePath`] are stated in these terms.

use vstd::prelude::*;

verus! {

/// Splits `text` at every `/`. The result is never empty: text without a
/// separator is its own single segment, and `n` separators give `n + 1`
/// segments, some of which may be empty.
pub open spec fn split(text: Seq<char>) -> Seq<Seq<char>>
    decreases text.len(),
{
    if text.len() == 0 {
        seq![Seq::<char>::empty()]
    } else {
        let before = split(text.drop_last());
        if text.last() == '/' {
            before.push(Seq::<char>::empty())
        } else {
            before.drop_last().push(before.last().push(text.last()))
        }
    }
}

/// The segment `.`, which refers to the directory it stands in.
pub open spec fn is_dot(part: Seq<char>) -> bool {
    part.len() == 1 && part[0] == '.'
}

/// The segment `..`, which refers to the parent directory.
pub open spec fn is_dot_dot(part: Seq<char>) -> bool {
    part.len() == 2 && part[0] == '.' && part[1] == '.'
}

/// No character of `part` is a separator.
pub open spec fn slash_free(part: Seq<char>) -> bool {
    forall|i: int| 0 <= i < part.len() ==> part[i] != '/'
}

/// A component is a segment that names something: not empty, not `.`, not
/// `..`, and without a separator inside.
pub open spec fn is_component(part: Seq<char>) -> bool {
    part.len() > 0 && !is_dot(part) && !is_dot_dot(part) && slash_free(part)
}

/// Every element of `parts` is a component.
pub open spec fn all_components(parts: Seq<Seq<char>>) -> bool {
    forall|i: int| 0 <= i < parts.len() ==> is_component(#[trigger] parts[i])
}

/// Every element of `parts` is free of separators.
pub open spec fn all_slash_free(parts: Seq<Seq<char>>) -> bool {
    forall|i: int| 0 <= i < parts.len() ==> slash_free(#[trigger] parts[i])
}

/// What one more segment does to the components retained so far: empty
/// segments and `.` change nothing, `..` removes the last component if there
/// is one and is dropped at the root, anything else is appended.
pub open spec fn retain(kept: Seq<Seq<char>>, part: Seq<char>) -> Seq<Seq<char>> {
    if part.len() == 0 || is_dot(part) {
        kept
    } else if is_dot_dot(part) {
        if kept.len() > 0 {
            kept.drop_last()
        } else {
            kept
        }
    } else {
        kept.push(part)
    }
}

/// The components that remain after the segments `parts` are applied from
/// left to right.
pub open spec fn resolve(parts: Seq<Seq<char>>) -> Seq<Seq<char>>
    decreases parts.len(),
{
    if parts.len() == 0 {
        Seq::<Seq<char>>::empty()
    } else {
        retain(resolve(parts.drop_last()), parts.last())
    }
}

/// Each component preceded by a separator, one after another.
pub open spec fn join(components: Seq<Seq<char>>) -> Seq<char>
    decreases components.len(),
{
    if components.len() == 0 {
        Seq::<char>::empty()
    } else {
        join(components.drop_last()) + seq!['/'] + components.last()
    }
}

/// The text of the path with the given components; the root is `/`.
pub open spec fn render(components: Seq<Seq<char>>) -> Seq<char> {
    if components.len() == 0 {
        seq!['/']
    } else {
        join(components)
    }
}

/// The canonical text that `text` denotes.
pub open spec fn normalized(text: Seq<char>) -> Seq<char> {
    render(resolve(split(text)))
}

/// The text is a canonical absolute path: it starts with `/`, and it is
/// either the root itself or every segment after the leading separator is a
/// component. That excludes `.`, `..`, doubled separators and a trailing
/// separator.
pub open spec fn is_canonical(text: Seq<char>) -> bool {
    &&& text.len() > 0
    &&& text[0] == '/'
    &&& text.len() == 1 || all_components(split(text.skip(1)))
}

/// The components of a canonical text, in order; none for the root.
pub open spec fn components_of(text: Seq<char>) -> Seq<Seq<char>> {
    if text.len() <= 1 {
        Seq::<Seq<char>>::empty()
    } else {
        split(text.skip(1))
    }
}

/// The last component of a canonical text, or `/` for the root.
pub open spec fn name_of(text: Seq<char>) -> Seq<char> {
    if components_of(text).len() == 0 {
        seq!['/']
    } else {
        components_of(text).last()
    }
}

/// The canonical text without its last component; the root is its own
/// parent.
pub open spec fn parent_of(text: Seq<char>) -> Seq<char> {
    if components_of(text).len() == 0 {
        seq!['/']
    } else {
        render(components_of(text).drop_last())
    }
}

/// How `split` extends when one character is appended.
pub proof fn lemma_split_push(text: Seq<char>, c: char)
    ensures
        split(text).len() >= 1,
        c == '/' ==> split(text.push(c)) == split(text).push(Seq::<char>::empty()),
        c != '/' ==> split(text.push(c)) == split(text).drop_last().push(
            split(text).last().push(c),
        ),
{
    lemma_split_len(text);
    assert(text.push(c).drop_last() =~= text);
    assert(text.push(c).last() == c);
}

/// `split` yields at least one segment.
pub proof fn lemma_split_len(text: Seq<char>)
    ensures
        split(text).len() >= 1,
    decreases text.len(),
{
    if text.len() > 0 {
        lemma_split_len(text.drop_last());
    }
}

/// No segment that `split` yields holds a separator.
pub proof fn lemma_split_slash_free(text: Seq<char>)
    ensures
        all_slash_free(split(text)),
    decreases text.len(),
{
    if text.len() > 0 {
        lemma_split_len(text.drop_last());
        lemma_split_slash_free(text.drop_last());
    }
}

/// Appending a separator and a segment without separators appends that
/// segment to the split.
pub proof fn lemma_split_append_segment(head: Seq<char>, part: Seq<char>)
    requires
        slash_free(part),
    ensures
        split(head.push('/') + part) == split(head).push(part),
    decreases part.len(),
{
    if part.len() == 0 {
        assert(head.push('/') + part =~= head.push('/'));
        lemma_split_push(head, '/');
        assert(part =~= Seq::<char>::empty());
    } else {
        let shorter = part.drop_last();
        let c = part.last();
        lemma_split_append_segment(head, shorter);
        assert((head.push('/') + shorter).push(c) =~= head.push('/') + part);
        lemma_split_push(head.push('/') + shorter, c);
        assert(split(head).push(shorter).drop_last() =~= split(head));
        assert(shorter.push(c) =~= part);
    }
}

/// Joining and splitting again gives the components back, after the empty
/// segment that stands before the leading separator.
pub proof fn lemma_split_join(components: Seq<Seq<char>>)
    requires
        all_slash_free(components),
    ensures
        split(join(components)) == seq![Seq::<char>::empty()] + components,
    decreases components.len(),
{
    if components.len() == 0 {
        assert(seq![Seq::<char>::empty()] + components =~= seq![Seq::<char>::empty()]);
    } else {
        let init = components.drop_last();
        let last = components.last();
        lemma_split_join(init);
        assert(join(components) =~= join(init).push('/') + last);
        lemma_split_append_segment(join(init), last);
        assert((seq![Seq::<char>::empty()] + init).push(last) =~= seq![Seq::<char>::empty()]
            + components);
    }
}

/// A leading separator contributes one empty segment and nothing else.
pub proof fn lemma_split_leading_slash(rest: Seq<char>)
    ensures
        split(seq!['/'] + rest) == seq![Seq::<char>::empty()] + split(rest),
    decreases rest.len(),
{
    let empty = Seq::<char>::empty();
    if rest.len() == 0 {
        assert(seq!['/'] + rest =~= empty.push('/'));
        lemma_split_push(empty, '/');
        assert(split(empty) =~= seq![empty]);
        assert(split(rest) =~= seq![empty]);
        assert(seq![empty].push(empty) =~= seq![empty] + seq![empty]);
    } else {
        let shorter = rest.drop_last();
        let c = rest.last();
        lemma_split_leading_slash(shorter);
        assert((seq!['/'] + shorter).push(c) =~= seq!['/'] + rest);
        assert(shorter.push(c) =~= rest);
        lemma_split_push(seq!['/'] + shorter, c);
        lemma_split_push(shorter, c);
        let inner = split(shorter);
        if c == '/' {
            assert((seq![empty] + inner).push(empty) =~= seq![empty] + inner.push(empty));
        } else {
            assert((seq![empty] + inner).drop_last() =~= seq![empty] + inner.drop_last());
            assert((seq![empty] + inner).last() == inner.last());
            assert((seq![empty] + inner.drop_last()).push(inner.last().push(c)) =~= seq![empty]
                + inner.drop_last().push(inner.last().push(c)));
        }
    }
}

/// Splitting and joining again gives the text back behind one separator.
pub proof fn lemma_join_split(text: Seq<char>)
    ensures
        join(split(text)) == seq!['/'] + text,
    decreases text.len(),
{
    let empty = Seq::<char>::empty();
    if text.len() == 0 {
        assert(split(text) =~= seq![empty]);
        assert(seq![empty].drop_last() =~= Seq::<Seq<char>>::empty());
        assert(join(Seq::<Seq<char>>::empty()) =~= empty);
        assert(join(seq![empty]) =~= seq!['/']);
        assert(seq!['/'] + text =~= seq!['/']);
    } else {
        let shorter = text.drop_last();
        let c = text.last();
        lemma_join_split(shorter);
        assert(shorter.push(c) =~= text);
        lemma_split_push(shorter, c);
        let inner = split(shorter);
        if c == '/' {
            assert(inner.push(empty).drop_last() =~= inner);
            assert(join(inner.push(empty)) =~= join(inner) + seq!['/'] + empty);
            assert(join(inner) + seq!['/'] + empty =~= seq!['/'] + text);
        } else {
            let grown = inner.drop_last().push(inner.last().push(c));
            assert(grown.drop_last() =~= inner.drop_last());
            assert(join(grown) =~= join(inner.drop_last()) + seq!['/'] + inner.last().push(c));
            assert(join(inner) =~= join(inner.drop_last()) + seq!['/'] + inner.last());
            assert(join(grown) =~= join(inner).push(c));
            assert((seq!['/'] + shorter).push(c) =~= seq!['/'] + text);
        }
    }
}

/// Whatever the segments, what `resolve` keeps are components.
pub proof fn lemma_resolve_components(parts: Seq<Seq<char>>)
    requires
        all_slash_free(parts),
    ensures
        all_components(resolve(parts)),
    decreases parts.len(),
{
    if parts.len() > 0 {
        lemma_resolve_components(parts.drop_last());
    }
}

/// Components pass through `resolve` unchanged, and an empty segment before
/// them changes nothing.
pub proof fn lemma_resolve_fixes_components(components: Seq<Seq<char>>)
    requires
        all_components(components),
    ensures
        resolve(components) == components,
        resolve(seq![Seq::<char>::empty()] + components) == components,
    decreases components.len(),
{
    let empty = Seq::<char>::empty();
    if components.len() == 0 {
        assert(seq![empty] + components =~= seq![empty]);
        assert(seq![empty].drop_last() =~= Seq::<Seq<char>>::empty());
        assert(resolve(Seq::<Seq<char>>::empty()) =~= Seq::<Seq<char>>::empty());
        assert(resolve(seq![empty]) =~= Seq::<Seq<char>>::empty());
        assert(resolve(components) =~= components);
    } else {
        let init = components.drop_last();
        lemma_resolve_fixes_components(init);
        assert((seq![empty] + components).drop_last() =~= seq![empty] + init);
        assert(init.push(components.last()) =~= components);
    }
}

/// The text of a non-empty sequence of components starts with a separator
/// and is longer than the root.
pub proof fn lemma_join_shape(components: Seq<Seq<char>>)
    requires
        components.len() > 0,
        all_components(components),
    ensures
        join(components).len() >= 2,
        join(components)[0] == '/',
    decreases components.len(),
{
    if components.len() > 1 {
        lemma_join_shape(components.drop_last());
    } else {
        assert(components.drop_last() =~= Seq::<Seq<char>>::empty());
        assert(join(components.drop_last()) =~= Seq::<char>::empty());
    }
}

/// Rendering components gives a canonical text that has exactly those
/// components.
pub proof fn lemma_render_canonical(components: Seq<Seq<char>>)
    requires
        all_components(components),
    ensures
        is_canonical(render(components)),
        components_of(render(components)) == components,
{
    if components.len() == 0 {
        assert(components_of(render(components)) =~= components);
    } else {
        let text = join(components);
        lemma_join_shape(components);
        lemma_split_join(components);
        assert(seq!['/'] + text.skip(1) =~= text);
        lemma_split_leading_slash(text.skip(1));
        let empty = Seq::<char>::empty();
        assert((seq![empty] + split(text.skip(1))).drop_first() =~= split(text.skip(1)));
        assert((seq![empty] + components).drop_first() =~= components);
    }
}

/// A canonical text is the rendering of its own components, and they are
/// components indeed.
pub proof fn lemma_canonical_render(text: Seq<char>)
    requires
        is_canonical(text),
    ensures
        all_components(components_of(text)),
        render(components_of(text)) == text,
{
    if text.len() == 1 {
        assert(text =~= seq!['/']);
    } else {
        let rest = text.skip(1);
        lemma_split_len(rest);
        lemma_join_split(rest);
        assert(seq!['/'] + rest =~= text);
    }
}

/// Normalizing yields a canonical text, whatever the input.
pub proof fn lemma_normalized_canonical(text: Seq<char>)
    ensures
        is_canonical(normalized(text)),
        components_of(normalized(text)) == resolve(split(text)),
{
    lemma_split_slash_free(text);
    lemma_resolve_components(split(text));
    lemma_render_canonical(resolve(split(text)));
}

/// Normalizing a canonical text changes nothing.
pub proof fn lemma_normalized_fixes_canonical(text: Seq<char>)
    requires
        is_canonical(text),
    ensures
        normalized(text) == text,
{
    let empty = Seq::<char>::empty();
    let rest = text.skip(1);
    assert(seq!['/'] + rest =~= text);
    lemma_split_leading_slash(rest);
    if text.len() == 1 {
        assert(rest =~= empty);
        assert(split(rest) =~= seq![empty]);
        assert(split(text) =~= seq![empty, empty]);
        assert(seq![empty, empty].drop_last() =~= seq![empty]);
        assert(seq![empty].drop_last() =~= Seq::<Seq<char>>::empty());
        assert(resolve(Seq::<Seq<char>>::empty()) =~= Seq::<Seq<char>>::empty());
        assert(resolve(seq![empty]) =~= Seq::<Seq<char>>::empty());
        assert(resolve(seq![empty, empty]) =~= Seq::<Seq<char>>::empty());
        assert(text =~= seq!['/']);
    } else {
        lemma_canonical_render(text);
        lemma_resolve_fixes_components(split(rest));
        lemma_split_len(rest);
    }
}

/// Normalization is idempotent: a second pass changes nothing.
pub proof fn lemma_normalize_idempotent(text: Seq<char>)
    ensures
        normalized(normalized(text)) == normalized(text),
{
    lemma_normalized_canonical(text);
    lemma_normalized_fixes_canonical(normalized(text));
}

/// Two texts denote the same path exactly when they resolve to the same
/// components.
pub proof fn lemma_equivalence(a: Seq<char>, b: Seq<char>)
    ensures
        normalized(a) == normalized(b) <==> resolve(split(a)) == resolve(split(b)),
{
    lemma_normalized_canonical(a);
    lemma_normalized_canonical(b);
}

/// The name of a canonical path is never `.` or `..`, and holds no
/// separator unless the path is the root.
pub proof fn lemma_name_is_no_reference(text: Seq<char>)
    requires
        is_canonical(text),
    ensures
        !is_dot(name_of(text)),
        !is_dot_dot(name_of(text)),
        components_of(text).len() > 0 ==> is_component(name_of(text)),
{
    lemma_canonical_render(text);
}

/// The parent of a canonical path is canonical, has all components but the
/// last, and the root is its own parent.
pub proof fn lemma_parent_canonical(text: Seq<char>)
    requires
        is_canonical(text),
    ensures
        is_canonical(parent_of(text)),
        components_of(text).len() == 0 ==> parent_of(text) == text,
        components_of(text).len() > 0 ==> components_of(parent_of(text)) == components_of(
            text,
        ).drop_last(),
{
    lemma_canonical_render(text);
    if components_of(text).len() == 0 {
        assert(text =~= seq!['/']);
    } else {
        lemma_render_canonical(components_of(text).drop_last());
    }
}

/// Appending one component to a canonical text and normalizing appends that
/// component to the path.
pub proof fn lemma_child(parent: Seq<char>, name: Seq<char>)
    requires
        is_canonical(parent),
        is_component(name),
    ensures
        components_of(normalized(parent + seq!['/'] + name)) == components_of(parent).push(name),
{
    let text = parent + seq!['/'] + name;
    lemma_normalized_fixes_canonical(parent);
    lemma_normalized_canonical(parent);
    lemma_normalized_canonical(text);
    assert(text =~= parent.push('/') + name);
    lemma_split_append_segment(parent, name);
    assert(split(parent).push(name).drop_last() =~= split(parent));
}

/// A child knows its parent and its own name: going down by one component
/// and up again arrives where it started.
pub proof fn lemma_child_parent(parent: Seq<char>, name: Seq<char>)
    requires
        is_canonical(parent),
        is_component(name),
    ensures
        parent_of(normalized(parent + seq!['/'] + name)) == parent,
        name_of(normalized(parent + seq!['/'] + name)) == name,
{
    let child = normalized(parent + seq!['/'] + name);
    lemma_child(parent, name);
    lemma_canonical_render(parent);
    assert(components_of(parent).push(name).drop_last() =~= components_of(parent));
}

/// Components followed by components are components.
pub proof fn lemma_all_components_concat(head: Seq<Seq<char>>, tail: Seq<Seq<char>>)
    requires
        all_components(head),
        all_components(tail),
    ensures
        all_components(head + tail),
{
    assert forall|i: int| 0 <= i < (head + tail).len() implies is_component(
        #[trigger] (head + tail)[i],
    ) by {
        if i < head.len() {
            assert((head + tail)[i] == head[i]);
        } else {
            assert((head + tail)[i] == tail[i - head.len()]);
        }
    }
}

} // verus!
