//! The names of the branches that carry commits to review.
use vstd::prelude::*;

use crate::stack::{PatchEntry, PatchStatus, PatchView};
use crate::text::bytes;
use crate::text::bytes::{can_cut, cut_text};
use crate::text::chars;
use crate::text::chars::{to_chars, to_lower, trimmed, trimmed_end_set, trimmed_set, CharSet};
use crate::text::views;

verus! {

broadcast use views::group_views;

/// Whether Unicode counts a character beyond ASCII among the letters and numbers.
pub uninterp spec fn wide_alphanumeric(c: char) -> bool;

/// `char::is_alphanumeric`, which is a function of the character alone.
#[verifier::external_body]
fn is_wide_alphanumeric(c: char) -> (r: bool)
    ensures
        r == wide_alphanumeric(c),
{
    c.is_alphanumeric()
}

/// Whether a character is a letter or a number.
pub open spec fn is_alphanumeric(c: char) -> bool {
    if (c as u32) < 0x80 {
        '0' <= c <= '9' || 'a' <= c <= 'z' || 'A' <= c <= 'Z'
    } else {
        wide_alphanumeric(c)
    }
}

/// Whether a character is a letter or a number.
fn alphanumeric(c: char) -> (r: bool)
    ensures
        r == is_alphanumeric(c),
{
    if (c as u32) < 0x80 {
        ('0' <= c && c <= '9') || ('a' <= c && c <= 'z') || ('A' <= c && c <= 'Z')
    } else {
        is_wide_alphanumeric(c)
    }
}

/// A letter or a number in lower case, and a dash for any other character.
pub open spec fn clean(c: char) -> char {
    if is_alphanumeric(c) {
        chars::lower(c)
    } else {
        '-'
    }
}

/// The text with each character cleaned, and without dashes at either end.
pub open spec fn cleaned(s: Seq<char>) -> Seq<char> {
    chars::trim_set(s.map_values(|c: char| clean(c)), CharSet::Only('-'))
}

/// Whether the cleaned text can be shortened to `n` bytes: that no character
/// stands across the cut.
pub open spec fn sluggable(s: Seq<char>, n: int) -> bool {
    bytes::cuts(cleaned(s), n)
}

/// The cleaned text, shortened to `n` bytes, without dashes at its end.
pub open spec fn slug(s: Seq<char>, n: int) -> Seq<char> {
    chars::trim_end_set(bytes::cut(cleaned(s), n), CharSet::Only('-'))
}

/// The text with each character cleaned, and without dashes at either end.
fn clean_text(s: &str) -> (r: String)
    ensures
        r@ == cleaned(s@),
{
    let v = to_chars(s);
    let mut t = String::new();
    let mut i: usize = 0;
    proof {
        assert(t@ =~= v@.take(0).map_values(|c: char| clean(c)));
    }
    while i < v.len()
        invariant
            i <= v@.len(),
            t@ == v@.take(i as int).map_values(|c: char| clean(c)),
        decreases v.len() - i,
    {
        let c = if alphanumeric(v[i]) {
            to_lower(v[i])
        } else {
            '-'
        };
        t.push(c);
        proof {
            assert(v@.take(i + 1) =~= v@.take(i as int).push(v@[i as int]));
            assert(t@ =~= v@.take(i + 1).map_values(|c: char| clean(c)));
        }
        i += 1;
    }
    proof {
        assert(v@.take(i as int) =~= v@);
    }
    trimmed_set(t.as_str(), CharSet::Only('-'))
}

/// Whether the cleaned text can be shortened to `n` bytes.
pub fn can_slug(s: &str, n: usize) -> (r: bool)
    ensures
        r == sluggable(s@, n as int),
{
    can_cut(clean_text(s).as_str(), n)
}

/// The slug of a text.
pub fn slug_text(s: &str, n: usize) -> (r: String)
    requires
        sluggable(s@, n as int),
    ensures
        r@ == slug(s@, n as int),
{
    let t = clean_text(s);
    let c = cut_text(t.as_str(), n);
    trimmed_end_set(c.as_str(), CharSet::Only('-'))
}

/// The longest slug of a user's name, in bytes.
pub const USER_BYTES: usize = 20;

/// The longest slug of a subject, in bytes.
pub const SUBJECT_BYTES: usize = 50;

/// The name that a user goes by: git's `user.name`, or else the name that the
/// environment gives (`USER`, then `USERNAME`), or else `user`.
pub open spec fn known_name(
    configured: Option<Seq<char>>,
    user: Option<Seq<char>>,
    username: Option<Seq<char>>,
) -> Seq<char> {
    let name = match configured {
        Some(n) => chars::trim(n),
        None => seq![],
    };
    if name.len() > 0 {
        name
    } else {
        match user {
            Some(u) => u,
            None => match username {
                Some(u) => u,
                None => "user"@,
            },
        }
    }
}

/// The name that a user goes by, from what `git config user.name` printed and the
/// environment variables `USER` and `USERNAME`.
pub fn user_name(configured: Option<String>, user: Option<String>, username: Option<String>) -> (r:
    String)
    ensures
        r@ == known_name(views::opt(configured), views::opt(user), views::opt(username)),
{
    let name = match configured {
        Some(n) => trimmed(n.as_str()),
        None => String::new(),
    };
    if !name.as_str().is_empty() {
        name
    } else {
        match user {
            Some(u) => u,
            None => match username {
                Some(u) => u,
                None => "user".to_owned(),
            },
        }
    }
}

/// Get a short, sanitized username for branch naming: lower case, alphanumeric and
/// dash, at most 20 bytes. `None` where the name cannot be shortened to that.
pub fn get_pgit_username(
    configured: Option<String>,
    user: Option<String>,
    username: Option<String>,
) -> (r: Option<String>)
    ensures
        ({
            let name = known_name(views::opt(configured), views::opt(user), views::opt(username));
            match r {
                Some(t) => sluggable(name, USER_BYTES as int) && t@ == slug(
                    name,
                    USER_BYTES as int,
                ),
                None => !sluggable(name, USER_BYTES as int),
            }
        }),
{
    let name = user_name(configured, user, username);
    if can_slug(name.as_str(), USER_BYTES) {
        Some(slug_text(name.as_str(), USER_BYTES))
    } else {
        None
    }
}

/// The branch of the commit with this subject, for a user.
pub open spec fn branch_of(user: Seq<char>, subject: Seq<char>) -> Seq<char> {
    "pgit/"@ + user + "/"@ + slug(subject, SUBJECT_BYTES as int)
}

/// Whose branches are wanted.
#[derive(Debug, Clone, Copy, PartialEq, Eq, Structural)]
pub enum Wanted {
    /// Those of all commits.
    All,
    /// Those of the submitted commits.
    Submitted,
    /// None.
    Nobody,
}

impl Wanted {
    /// Whether the branch of a commit is wanted.
    pub open spec fn has(self, e: PatchView) -> bool {
        match self {
            Wanted::All => true,
            Wanted::Submitted => e.status == PatchStatus::Submitted,
            Wanted::Nobody => false,
        }
    }

    /// Whether every commit whose branch is wanted can be given one.
    pub open spec fn sluggable(self, p: Seq<PatchView>) -> bool {
        forall|i: int|
            0 <= i < p.len() && self.has(#[trigger] p[i]) ==> sluggable(
                p[i].subject,
                SUBJECT_BYTES as int,
            )
    }

    /// The wanted branches, and nothing for the other commits.
    pub open spec fn branches(self, user: Seq<char>, p: Seq<PatchView>) -> Seq<Seq<char>> {
        Seq::new(
            p.len(),
            |i: int|
                if self.has(p[i]) {
                    branch_of(user, p[i].subject)
                } else {
                    seq![]
                },
        )
    }

    /// Whether the branch of a commit is wanted.
    pub fn wants(self, e: &PatchEntry) -> (r: bool)
        ensures
            r == self.has(e@),
    {
        match self {
            Wanted::All => true,
            Wanted::Submitted => e.status == PatchStatus::Submitted,
            Wanted::Nobody => false,
        }
    }
}

/// What trimming leaves stands in the text, in one piece.
proof fn lemma_trimmed_part(s: Seq<char>, set: CharSet)
    ensures
        chars::trim_end_set(s, set).len() <= s.len(),
        chars::trim_end_set(s, set) == s.take(chars::trim_end_set(s, set).len() as int),
        chars::trim_end_set(s, set).len() > 0 ==> !set.has(chars::trim_end_set(s, set).last()),
    decreases s.len(),
{
    if s.len() > 0 && set.has(s.last()) {
        lemma_trimmed_part(s.drop_last(), set);
        let n = chars::trim_end_set(s, set).len() as int;
        assert(s.take(n) =~= s.drop_last().take(n));
    } else {
        assert(s.take(s.len() as int) =~= s);
    }
}

/// What trimming at the start leaves is the end of the text.
proof fn lemma_trimmed_tail(s: Seq<char>, set: CharSet)
    ensures
        chars::trim_start_set(s, set).len() <= s.len(),
        chars::trim_start_set(s, set) == s.skip(s.len() - chars::trim_start_set(s, set).len()),
        chars::trim_start_set(s, set).len() > 0 ==> !set.has(chars::trim_start_set(s, set)[0]),
    decreases s.len(),
{
    if s.len() > 0 && set.has(s[0]) {
        lemma_trimmed_tail(s.drop_first(), set);
        let t = chars::trim_start_set(s, set);
        assert(s.skip(s.len() - t.len()) =~= s.drop_first().skip(s.drop_first().len() - t.len()));
    } else {
        assert(s.skip(0) =~= s);
    }
}

/// The characters of a cleaned text are cleaned characters of the text.
proof fn lemma_cleaned(s: Seq<char>)
    ensures
        forall|i: int|
            0 <= i < cleaned(s).len() ==> exists|j: int|
                0 <= j < s.len() && #[trigger] cleaned(s)[i] == clean(#[trigger] s[j]),
        cleaned(s).len() > 0 ==> cleaned(s)[0] != '-',
{
    let set = CharSet::Only('-');
    let m = s.map_values(|c: char| clean(c));
    let a = chars::trim_start_set(m, set);
    lemma_trimmed_tail(m, set);
    lemma_trimmed_part(a, set);
    let t = cleaned(s);
    assert(t =~= chars::trim_end_set(a, set));
    assert forall|i: int| 0 <= i < t.len() implies exists|j: int|
        0 <= j < s.len() && #[trigger] t[i] == clean(#[trigger] s[j]) by {
        let j = i + (m.len() - a.len());
        assert(t[i] == a[i]);
        assert(a[i] == m[j]);
        assert(m[j] == clean(s[j]));
    }
    if t.len() > 0 {
        assert(t[0] == a[0]);
    }
}

/// A slug has no white space and no punctuation but dashes, no upper-case letter of
/// ASCII, and no dash at either end.
pub proof fn law_slug_clean(s: Seq<char>, n: int)
    requires
        n >= 0,
    ensures
        forall|i: int|
            0 <= i < slug(s, n).len() ==> {
                let c = #[trigger] slug(s, n)[i];
                (c == '-' || is_alphanumeric(c)) && !('A' <= c <= 'Z')
            },
        slug(s, n).len() > 0 ==> slug(s, n)[0] != '-' && slug(s, n).last() != '-',
{
    let set = CharSet::Only('-');
    let t = cleaned(s);
    let c = bytes::cut(t, n);
    let r = slug(s, n);
    lemma_cleaned(s);
    bytes::lemma_cut(t, n);
    lemma_trimmed_part(c, set);
    assert forall|i: int| 0 <= i < r.len() implies ({
        let c = #[trigger] r[i];
        (c == '-' || is_alphanumeric(c)) && !('A' <= c <= 'Z')
    }) by {
        assert(r[i] == c[i]);
        assert(c[i] == t[i]);
        let j = choose|j: int| 0 <= j < s.len() && t[i] == clean(#[trigger] s[j]);
        assert(t[i] == clean(s[j]));
        let x = s[j];
        if is_alphanumeric(x) && 'A' <= x <= 'Z' {
            assert((x as u32) < 0x80);
            assert('a' <= chars::lower(x) <= 'z');
        }
    }
    if r.len() > 0 {
        assert(r[0] == c[0]);
        assert(c[0] == t[0]);
    }
}

/// A part of a text is no longer than the text.
proof fn lemma_take_bytes(s: Seq<char>, n: int)
    requires
        0 <= n <= s.len(),
    ensures
        bytes::byte_len(s.take(n)) <= bytes::byte_len(s),
{
    bytes::lemma_byte_len_add(s.take(n), s.skip(n));
    assert(s.take(n) + s.skip(n) =~= s);
}

/// A slug takes no more bytes than it is allowed.
pub proof fn law_slug_length(s: Seq<char>, n: int)
    requires
        n >= 0,
    ensures
        bytes::byte_len(slug(s, n)) <= n,
{
    let set = CharSet::Only('-');
    let c = bytes::cut(cleaned(s), n);
    bytes::lemma_cut(cleaned(s), n);
    lemma_trimmed_part(c, set);
    lemma_take_bytes(c, slug(s, n).len() as int);
}

/// Text in ASCII can be cut anywhere.
proof fn lemma_ascii_cuts(s: Seq<char>, n: int)
    requires
        n >= 0,
        forall|i: int| 0 <= i < s.len() ==> (#[trigger] s[i] as u32) < 0x80,
    ensures
        bytes::cuts(s, n),
    decreases s.len(),
{
    if s.len() > 0 && n > 0 {
        let t = s.drop_first();
        assert forall|i: int| 0 <= i < t.len() implies (#[trigger] t[i] as u32) < 0x80 by {
            assert(t[i] == s[i + 1]);
        }
        lemma_ascii_cuts(t, n - 1);
    }
}

/// Every subject in ASCII has a branch.
pub proof fn law_ascii_sluggable(s: Seq<char>, n: int)
    requires
        n >= 0,
        forall|i: int| 0 <= i < s.len() ==> (#[trigger] s[i] as u32) < 0x80,
    ensures
        sluggable(s, n),
{
    lemma_cleaned(s);
    let t = cleaned(s);
    assert forall|i: int| 0 <= i < t.len() implies (#[trigger] t[i] as u32) < 0x80 by {
        let j = choose|j: int| 0 <= j < s.len() && t[i] == clean(#[trigger] s[j]);
        assert((s[j] as u32) < 0x80);
    }
    lemma_ascii_cuts(t, n);
}

/// A branch's name begins with `pgit/` and the user's part, and what follows takes at
/// most 50 bytes. It rests on the user and the subject alone: amending a commit keeps
/// its branch.
pub proof fn law_branch_shape(user: Seq<char>, subject: Seq<char>)
    ensures
        ("pgit/"@ + user + "/"@).is_prefix_of(branch_of(user, subject)),
        bytes::byte_len(branch_of(user, subject).skip(("pgit/"@ + user + "/"@).len() as int))
            <= SUBJECT_BYTES,
{
    let p = "pgit/"@ + user + "/"@;
    let b = branch_of(user, subject);
    let s = slug(subject, SUBJECT_BYTES as int);
    law_slug_length(subject, SUBJECT_BYTES as int);
    assert(b.skip(p.len() as int) =~= s);
    assert(b.take(p.len() as int) =~= p);
}

} // verus!
