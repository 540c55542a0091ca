//! Logical key paths of a provenance log.
//!
//! A key path is a `/`-separated path from the root. It names a branch when it ends with the
//! separator (`/apps/chat/`) and a leaf when it does not (`/apps/chat/title`). The root branch
//! is `/`.
//!
//! Which texts are key paths is for the log implementation to say. A text comes in as a
//! [`KeyText`], together with what the parser of the log implementation made of it.

use crate::model;
use crate::text;
use vstd::prelude::*;
use vstd::string::*;

verus! {

/// The path names a branch.
pub open spec fn is_branch_path(s: Seq<char>) -> bool {
    s.len() > 0 && s.last() == '/'
}

/// The branch `branch` covers `key`: `key` is the branch itself or lies under it.
pub open spec fn branch_covers(branch: Seq<char>, key: Seq<char>) -> bool {
    is_branch_path(branch) && text::begins_with(key, branch)
}

/// A key path.
#[derive(Debug, PartialEq, Eq)]
pub struct Key {
    path: String,
}

impl View for Key {
    type V = Seq<char>;

    closed spec fn view(&self) -> Seq<char> {
        self.path@
    }
}

impl Clone for Key {
    fn clone(&self) -> (r: Key)
        ensures
            r@ == self@,
    {
        Key { path: self.path.clone() }
    }
}

/// A text that is to name a key path, with what the log implementation's parser made of it: the
/// key path, or its complaint.
#[derive(Debug, PartialEq, Eq)]
pub struct KeyText {
    /// The text.
    pub text: String,
    /// Outcome of parsing it.
    pub parsed: Result<Key, String>,
}

/// A [`KeyText`] as a mathematical value.
#[verifier::ext_equal]
pub struct KeyTextView {
    pub text: Seq<char>,
    pub parsed: Result<Seq<char>, Seq<char>>,
}

impl View for KeyText {
    type V = KeyTextView;

    open spec fn view(&self) -> KeyTextView {
        KeyTextView { text: self.text@, parsed: model::fallible(self.parsed) }
    }
}

impl Clone for KeyText {
    fn clone(&self) -> (r: KeyText)
        ensures
            r@ == self@,
    {
        let parsed: Result<Key, String> = match &self.parsed {
            Ok(k) => Ok(k.clone()),
            Err(reason) => Err(reason.clone()),
        };
        KeyText { text: self.text.clone(), parsed }
    }
}

/// The text of a key path, as it comes in where the parser gives back the key path.
pub open spec fn text_of(key: Seq<char>) -> KeyTextView {
    KeyTextView { text: key, parsed: Ok(key) }
}

impl Key {
    /// The key path that a log implementation writes as `path`.
    pub fn new(path: String) -> (r: Key)
        ensures
            r@ == path@,
    {
        Key { path }
    }

    /// The root branch.
    pub fn root() -> (r: Key)
        ensures
            r@ == "/"@,
    {
        Key { path: "/".to_owned() }
    }

    /// The path as text.
    pub fn as_str(&self) -> (r: &str)
        ensures
            r@ == self@,
    {
        self.path.as_str()
    }

    /// Whether the path names a branch.
    pub fn is_branch(&self) -> (r: bool)
        ensures
            r == is_branch_path(self@),
    {
        let chars: Vec<char> = text::chars_of(self.path.as_str());
        chars.len() > 0 && chars[chars.len() - 1] == '/'
    }

    /// Whether this branch covers `other`.
    pub fn parent_of(&self, other: &Key) -> (r: bool)
        ensures
            r == branch_covers(self@, other@),
    {
        self.is_branch() && text::starts_with(other.path.as_str(), self.path.as_str())
    }

    /// Whether both are the same path.
    pub fn same(&self, other: &Key) -> (r: bool)
        ensures
            r == (self@ == other@),
    {
        text::same_text(self.path.as_str(), other.path.as_str())
    }

    /// The leaf `name` directly under this branch.
    pub fn leaf(&self, name: &str) -> (r: Key)
        requires
            is_branch_path(self@),
        ensures
            r@ == self@ + name@,
    {
        let mut path: String = self.path.clone();
        path.append(name);
        Key { path }
    }
}

/// Coverage is transitive: what a covered branch covers, the covering branch covers too.
pub proof fn law_covering_is_transitive(a: Seq<char>, b: Seq<char>, c: Seq<char>)
    requires
        branch_covers(a, b),
        branch_covers(b, c),
    ensures
        branch_covers(a, c),
{
    assert(c.subrange(0, a.len() as int) =~= b.subrange(0, a.len() as int)) by {
        assert forall|i: int| 0 <= i < a.len() implies c[i] == b[i] by {
            assert(c.subrange(0, b.len() as int)[i] == b[i]);
        }
    }
}

/// A path names a branch exactly if it ends with the separator, and a branch covers exactly the
/// paths that continue it, itself included.
pub proof fn law_branches(branch: Seq<char>, key: Seq<char>)
    ensures
        is_branch_path(branch) <==> exists|p: Seq<char>| branch == #[trigger] p.push('/'),
        branch_covers(branch, key) <==> is_branch_path(branch) && exists|rest: Seq<char>|
            key == #[trigger] (branch + rest),
{
    if is_branch_path(branch) {
        assert(branch.drop_last().push('/') =~= branch);
    }
    text::law_occurrence(key, branch);
}

/// Where the parser gives a key path back as it was written, its text and its outcome agree.
pub proof fn law_text_of_a_key(key: Seq<char>)
    ensures
        text_of(key).text == key,
        text_of(key).parsed == Ok::<Seq<char>, Seq<char>>(key),
{
}

/// The value of a text holds the text and what was made of it.
pub proof fn law_key_text_values(t: KeyText)
    ensures
        t@.text == t.text@,
        t.parsed matches Ok(k) ==> t@.parsed == Ok::<Seq<char>, Seq<char>>(k@),
        t.parsed matches Err(reason) ==> t@.parsed == Err::<Seq<char>, Seq<char>>(reason@),
{
}

}
