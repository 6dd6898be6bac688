//! Canonical absolute paths.

use crate::algebra::{
    all_components, components_of, is_canonical, is_component, is_dot, is_dot_dot,
    lemma_all_components_concat, lemma_canonical_render, lemma_child,
    lemma_name_is_no_reference, lemma_normalized_canonical, lemma_normalized_fixes_canonical,
    lemma_parent_canonical, lemma_render_canonical, lemma_split_len, name_of, normalized,
    parent_of, render, split,
};
use crate::pattern::{pattern_accepts, search};
use crate::text::{normalize_text, render_parts, segments, texts};
use vstd::prelude::*;

verus! {

/// The pattern of a path that needs no normalization: one or more segments,
/// each a separator followed by a name that is neither `.` nor `..`.
///
/// The pattern is a screen and not the definition of a canonical path: it
/// lets a `.` segment through where another segment follows it, as in
/// `/./x`. What it accepts is therefore confirmed by [`is_canonical_text`]
/// before it is taken as it stands.
pub const NORMALIZED_PATTERN: &'static str =
    r"^(?:/(?:(?:[^\./][^/]*)|(?:\.[^\.][^/]*)|(?:\.{2,}[^/]+)))+$";

/// An absolute path in canonical form: it starts with `/`, holds no `.` or
/// `..` segment and no empty segment, and ends with a separator only if it
/// is the root. Two paths are equal exactly when their texts are.
#[derive(Debug)]
pub struct AbsolutePath {
    path: String,
}

impl View for AbsolutePath {
    type V = Seq<char>;

    closed spec fn view(&self) -> Seq<char> {
        self.path@
    }
}

/// Whether `part` is a component: not empty, not `.`, not `..`, and without
/// a separator.
pub fn is_component_text(part: &str) -> (answer: bool)
    ensures
        answer == is_component(part@),
{
    broadcast use vstd::string::axiom_spec_iter;

    let mut seen: u8 = 0;
    let mut dots = true;
    for c in it: part.chars()
        invariant
            it.seq() == part@,
            forall|j: int| 0 <= j < it.index() ==> part@[j] != '/',
            dots == (forall|j: int| 0 <= j < it.index() ==> part@[j] == '.'),
            seen <= 3,
            seen < 3 ==> seen == it.index(),
            seen == 3 ==> it.index() >= 3,
    {
        if c == '/' {
            return false;
        }
        if c != '.' {
            dots = false;
        }
        if seen < 3 {
            seen = seen + 1;
        }
    }
    seen > 0 && !(dots && seen <= 2)
}

/// Whether `value` is a canonical absolute path as it stands.
pub fn is_canonical_text(value: &str) -> (answer: bool)
    ensures
        answer == is_canonical(value@),
{
    let total = value.unicode_len();
    if total == 0 {
        return false;
    }
    if value.get_char(0) != '/' {
        return false;
    }
    if total == 1 {
        return true;
    }
    let rest = value.substring_char(1, total);
    proof {
        assert(rest@ =~= value@.skip(1));
    }
    let parts = segments(rest);
    let mut k: usize = 0;
    while k < parts.len()
        invariant
            k <= parts.len(),
            value@.len() > 1,
            value@[0] == '/',
            texts(parts@) == split(value@.skip(1)),
            forall|j: int| 0 <= j < k ==> is_component(#[trigger] split(value@.skip(1))[j]),
        decreases parts.len() - k,
    {
        let part: &str = parts[k];
        proof {
            assert(texts(parts@)[k as int] == part@);
        }
        if !is_component_text(part) {
            proof {
                assert(!is_component(split(value@.skip(1))[k as int]));
            }
            return false;
        }
        k = k + 1;
    }
    true
}

impl AbsolutePath {
    #[verifier::type_invariant]
    closed spec fn well_formed(&self) -> bool {
        is_canonical(self.path@)
    }

    /// Whether `value` has the shape of a normalized path, as the pattern
    /// engine sees it. A `true` answer means that [`NORMALIZED_PATTERN`]
    /// matches `value`.
    pub fn is_normalized(value: &str) -> (answer: bool)
        ensures
            answer ==> pattern_accepts(NORMALIZED_PATTERN@, value@),
    {
        match search(NORMALIZED_PATTERN, value) {
            Some(found) => found,
            None => false,
        }
    }

    /// The canonical text that `value` denotes.
    pub fn normalize(value: &str) -> (text: String)
        ensures
            text@ == normalized(value@),
            is_canonical(text@),
    {
        proof {
            lemma_normalized_canonical(value@);
        }
        normalize_text(value)
    }

    /// The path that `value` denotes, given the pattern engine's opinion of
    /// `value`. The opinion only saves work: text is taken as it stands
    /// where the opinion is favourable and the text is canonical indeed,
    /// and is normalized in every other case. The result is the same
    /// whatever the opinion.
    pub fn from_hint(value: &str, looks_normalized: bool) -> (path: AbsolutePath)
        ensures
            path@ == normalized(value@),
            is_canonical(path@),
    {
        proof {
            lemma_normalized_canonical(value@);
        }
        if looks_normalized && is_canonical_text(value) {
            proof {
                lemma_normalized_fixes_canonical(value@);
            }
            AbsolutePath { path: value.to_owned() }
        } else {
            AbsolutePath { path: normalize_text(value) }
        }
    }

    /// The path that `value` denotes. Every text denotes one: relative text
    /// is taken from the root, and `..` at the root stays at the root.
    pub fn new(value: &str) -> (path: AbsolutePath)
        ensures
            path@ == normalized(value@),
            is_canonical(path@),
    {
        let looks_normalized = AbsolutePath::is_normalized(value);
        AbsolutePath::from_hint(value, looks_normalized)
    }

    /// The canonical text of the path.
    pub fn as_str(&self) -> (text: &str)
        ensures
            text@ == self@,
            is_canonical(self@),
    {
        proof {
            use_type_invariant(self);
        }
        self.path.as_str()
    }

    /// Whether the path is the root, `/`.
    pub fn is_root(&self) -> (answer: bool)
        ensures
            answer == (self@ == seq!['/']),
            answer == (components_of(self@).len() == 0),
    {
        proof {
            use_type_invariant(self);
            lemma_canonical_render(self@);
            if self@.len() == 1 {
                assert(self@ =~= seq!['/']);
            } else {
                lemma_split_len(self@.skip(1));
            }
        }
        self.path.as_str().unicode_len() == 1
    }

    /// The components of the path in order; none for the root.
    pub fn components(&self) -> (parts: Vec<&str>)
        ensures
            texts(parts@) == components_of(self@),
            all_components(components_of(self@)),
    {
        proof {
            use_type_invariant(self);
            lemma_canonical_render(self@);
        }
        let text = self.path.as_str();
        let total = text.unicode_len();
        if total == 1 {
            let parts: Vec<&str> = Vec::new();
            proof {
                assert(texts(parts@) =~= components_of(self@));
            }
            parts
        } else {
            let rest = text.substring_char(1, total);
            proof {
                assert(rest@ =~= self@.skip(1));
            }
            segments(rest)
        }
    }

    /// The last component of the path, or `/` for the root. It is never
    /// `.` or `..`.
    pub fn name(&self) -> (text: &str)
        ensures
            text@ == name_of(self@),
            !is_dot(text@),
            !is_dot_dot(text@),
    {
        proof {
            use_type_invariant(self);
            lemma_name_is_no_reference(self@);
        }
        let parts = self.components();
        if parts.len() == 0 {
            proof {
                lemma_canonical_render(self@);
            }
            self.path.as_str()
        } else {
            let last: &str = parts[parts.len() - 1];
            proof {
                assert(texts(parts@).last() == last@);
            }
            last
        }
    }

    /// The path without its last component. The root is its own parent.
    pub fn parent(&self) -> (path: AbsolutePath)
        ensures
            path@ == parent_of(self@),
            is_canonical(path@),
    {
        proof {
            use_type_invariant(self);
            lemma_parent_canonical(self@);
        }
        let mut parts = self.components();
        if parts.len() == 0 {
            proof {
                lemma_canonical_render(self@);
            }
            AbsolutePath { path: self.path.clone() }
        } else {
            let ghost all = texts(parts@);
            parts.pop();
            proof {
                assert(texts(parts@) =~= all.drop_last());
                lemma_render_canonical(all.drop_last());
            }
            AbsolutePath { path: render_parts(&parts) }
        }
    }

    /// The path of `name` inside the directory at this path. `name` is text
    /// like any other: where it is one component, that component is
    /// appended; where it holds separators or `..`, it is resolved from
    /// this path.
    pub fn child(&self, name: &str) -> (path: AbsolutePath)
        ensures
            path@ == normalized(self@ + seq!['/'] + name@),
            is_canonical(path@),
            is_component(name@) ==> components_of(path@) == components_of(self@).push(name@),
    {
        broadcast use vstd::string::axiom_spec_iter;

        proof {
            use_type_invariant(self);
            if is_component(name@) {
                lemma_child(self@, name@);
            }
        }
        let mut text = self.path.clone();
        text.push('/');
        let ghost head = text@;
        for c in it: name.chars()
            invariant
                it.seq() == name@,
                text@ == head + name@.take(it.index()),
        {
            text.push(c);
            proof {
                assert(name@.take(it.index()).push(c) =~= name@.take(it.index() + 1));
            }
        }
        proof {
            assert(name@.take(name@.len() as int) =~= name@);
            assert(head + name@ =~= self@ + seq!['/'] + name@);
        }
        AbsolutePath::new(text.as_str())
    }

    /// The path that `inner` denotes when its root is placed at this path:
    /// the components of this path followed by those of `inner`.
    pub fn join(&self, inner: &AbsolutePath) -> (path: AbsolutePath)
        ensures
            is_canonical(path@),
            path@ == render(components_of(self@) + components_of(inner@)),
            components_of(path@) == components_of(self@) + components_of(inner@),
    {
        proof {
            use_type_invariant(self);
            use_type_invariant(inner);
        }
        let mut parts = self.components();
        let tail = inner.components();
        let ghost head = texts(parts@);
        let mut k: usize = 0;
        while k < tail.len()
            invariant
                k <= tail.len(),
                texts(parts@) == head + texts(tail@).take(k as int),
            decreases tail.len() - k,
        {
            let part: &str = tail[k];
            let ghost earlier = texts(parts@);
            parts.push(part);
            proof {
                assert(texts(parts@) =~= earlier.push(part@));
                assert(texts(tail@).take(k + 1) =~= texts(tail@).take(k as int).push(part@));
                assert(earlier.push(part@) =~= head + texts(tail@).take(k + 1));
            }
            k = k + 1;
        }
        proof {
            assert(texts(tail@).take(tail.len() as int) =~= texts(tail@));
            lemma_all_components_concat(components_of(self@), components_of(inner@));
            lemma_render_canonical(components_of(self@) + components_of(inner@));
        }
        AbsolutePath { path: render_parts(&parts) }
    }

    /// The path made of the components after the first `count`; the root
    /// where there are no more than `count`.
    pub fn strip(&self, count: usize) -> (path: AbsolutePath)
        ensures
            is_canonical(path@),
            count <= components_of(self@).len() ==> components_of(path@) == components_of(
                self@,
            ).skip(count as int),
            count > components_of(self@).len() ==> path@ == seq!['/'],
    {
        proof {
            use_type_invariant(self);
        }
        let parts = self.components();
        let mut rest: Vec<&str> = Vec::new();
        if count > parts.len() {
            proof {
                assert(texts(rest@) =~= Seq::<Seq<char>>::empty());
                lemma_render_canonical(Seq::<Seq<char>>::empty());
            }
            return AbsolutePath { path: render_parts(&rest) };
        }
        let mut k: usize = count;
        proof {
            assert(texts(rest@) =~= texts(parts@).subrange(count as int, count as int));
        }
        while k < parts.len()
            invariant
                count <= k <= parts.len(),
                texts(rest@) == texts(parts@).subrange(count as int, k as int),
            decreases parts.len() - k,
        {
            let part: &str = parts[k];
            let ghost earlier = texts(rest@);
            rest.push(part);
            proof {
                assert(texts(rest@) =~= earlier.push(part@));
                assert(earlier.push(part@) =~= texts(parts@).subrange(count as int, k + 1));
            }
            k = k + 1;
        }
        proof {
            let kept = components_of(self@).skip(count as int);
            assert(texts(parts@).subrange(count as int, parts.len() as int) =~= kept);
            assert forall|i: int| 0 <= i < kept.len() implies is_component(#[trigger] kept[i]) by {
                assert(kept[i] == components_of(self@)[i + count]);
            }
            lemma_render_canonical(kept);
        }
        AbsolutePath { path: render_parts(&rest) }
    }
}

impl PartialEq for AbsolutePath {
    fn eq(&self, other: &Self) -> (equal: bool) {
        self.path == other.path
    }
}

impl vstd::std_specs::cmp::PartialEqSpecImpl for AbsolutePath {
    open spec fn obeys_eq_spec() -> bool {
        true
    }

    open spec fn eq_spec(&self, other: &Self) -> bool {
        self@ == other@
    }
}

/// The path that a text denotes, as [`AbsolutePath::new`] gives it. What
/// the conversion returns is stated on `from` itself.
impl<'a> From<&'a str> for AbsolutePath {
    fn from(value: &'a str) -> (path: Self)
        ensures
            path@ == normalized(value@),
    {
        AbsolutePath::new(value)
    }
}

impl<'a> vstd::std_specs::convert::FromSpecImpl<&'a str> for AbsolutePath {
    open spec fn obeys_from_spec() -> bool {
        false
    }

    open spec fn from_spec(value: &'a str) -> Self {
        arbitrary()
    }
}

/// The path that a string denotes, as [`AbsolutePath::new`] gives it.
impl From<String> for AbsolutePath {
    fn from(value: String) -> (path: Self)
        ensures
            path@ == normalized(value@),
    {
        AbsolutePath::new(value.as_str())
    }
}

impl vstd::std_specs::convert::FromSpecImpl<String> for AbsolutePath {
    open spec fn obeys_from_spec() -> bool {
        false
    }

    open spec fn from_spec(value: String) -> Self {
        arbitrary()
    }
}

impl Clone for AbsolutePath {
    fn clone(&self) -> (copy: Self)
        ensures
            copy@ == self@,
    {
        proof {
            use_type_invariant(self);
        }
        AbsolutePath { path: self.path.clone() }
    }
}

} // verus!
