//! A validated, non-empty, trimmed display label for a person.

use vstd::prelude::*;
use vstd::string::StrSliceExecFns;
use vstd::string::StringExecFns;

verus! {

/// The characters that trimming strips: the Unicode `White_Space` set, the
/// one `char::is_whitespace` describes.
pub open spec fn is_space_char(c: char) -> bool {
    let u = c as u32;
    ||| u == 0x20
    ||| (0x09 <= u && u <= 0x0D)
    ||| u == 0x85
    ||| u == 0xA0
    ||| u == 0x1680
    ||| (0x2000 <= u && u <= 0x200A)
    ||| u == 0x2028
    ||| u == 0x2029
    ||| u == 0x202F
    ||| u == 0x205F
    ||| u == 0x3000
}

fn is_space(c: char) -> (r: bool)
    ensures
        r == is_space_char(c),
{
    let u = c as u32;
    u == 0x20 || (0x09 <= u && u <= 0x0D) || u == 0x85 || u == 0xA0 || u == 0x1680 || (0x2000 <= u
        && u <= 0x200A) || u == 0x2028 || u == 0x2029 || u == 0x202F || u == 0x205F || u == 0x3000
}

/// How many whitespace characters the text starts with.
pub open spec fn count_leading_spaces(s: Seq<char>) -> int
    decreases s.len(),
{
    if s.len() > 0 && is_space_char(s[0]) {
        1 + count_leading_spaces(s.drop_first())
    } else {
        0
    }
}

/// How many whitespace characters the text ends with.
pub open spec fn count_trailing_spaces(s: Seq<char>) -> int
    decreases s.len(),
{
    if s.len() > 0 && is_space_char(s.last()) {
        1 + count_trailing_spaces(s.drop_last())
    } else {
        0
    }
}

/// The text with leading and trailing whitespace stripped.
pub open spec fn trim_spec(s: Seq<char>) -> Seq<char> {
    if count_leading_spaces(s) == s.len() {
        Seq::empty()
    } else {
        s.subrange(count_leading_spaces(s), s.len() - count_trailing_spaces(s))
    }
}

proof fn lemma_count_leading_bounds(s: Seq<char>)
    ensures
        0 <= count_leading_spaces(s) <= s.len(),
        forall|j: int| 0 <= j < count_leading_spaces(s) ==> is_space_char(s[j]),
        count_leading_spaces(s) < s.len() ==> !is_space_char(s[count_leading_spaces(s)]),
    decreases s.len(),
{
    if s.len() > 0 && is_space_char(s[0]) {
        lemma_count_leading_bounds(s.drop_first());
        assert(forall|j: int| 0 <= j < count_leading_spaces(s) ==> is_space_char(#[trigger] s[j]))
            by {
            assert(forall|j: int|
                1 <= j < s.len() ==> #[trigger] s[j] == s.drop_first()[j - 1]);
        }
    }
}

proof fn lemma_count_trailing_bounds(s: Seq<char>)
    ensures
        0 <= count_trailing_spaces(s) <= s.len(),
        forall|j: int| s.len() - count_trailing_spaces(s) <= j < s.len() ==> is_space_char(s[j]),
        count_trailing_spaces(s) < s.len() ==> !is_space_char(
            s[s.len() - count_trailing_spaces(s) - 1],
        ),
    decreases s.len(),
{
    if s.len() > 0 && is_space_char(s.last()) {
        lemma_count_trailing_bounds(s.drop_last());
        assert(forall|j: int|
            s.len() - count_trailing_spaces(s) <= j < s.len() ==> is_space_char(
                #[trigger] s[j],
            )) by {
            assert(forall|j: int|
                0 <= j < s.len() - 1 ==> #[trigger] s[j] == s.drop_last()[j]);
        }
    }
}

/// The count of leading spaces is the position of the first character that
/// is no space.
proof fn lemma_count_leading_at(s: Seq<char>, i: int)
    requires
        0 <= i <= s.len(),
        forall|j: int| 0 <= j < i ==> is_space_char(s[j]),
        i < s.len() ==> !is_space_char(s[i]),
    ensures
        count_leading_spaces(s) == i,
    decreases i,
{
    if i == 0 {
    } else {
        assert(is_space_char(s[0]));
        assert(forall|j: int| 0 <= j < i - 1 ==> s.drop_first()[j] == s[j + 1]);
        lemma_count_leading_at(s.drop_first(), i - 1);
    }
}

/// The count of trailing spaces is the distance from the last character
/// that is no space to the end.
proof fn lemma_count_trailing_at(s: Seq<char>, k: int)
    requires
        0 <= k <= s.len(),
        forall|j: int| s.len() - k <= j < s.len() ==> is_space_char(s[j]),
        k < s.len() ==> !is_space_char(s[s.len() - k - 1]),
    ensures
        count_trailing_spaces(s) == k,
    decreases k,
{
    if k == 0 {
    } else {
        assert(is_space_char(s.last()));
        assert(forall|j: int| 0 <= j < s.len() - 1 ==> s.drop_last()[j] == s[j]);
        lemma_count_trailing_at(s.drop_last(), k - 1);
    }
}

/// Trimming a text that starts and ends with no whitespace gives the text
/// back: validating an already-trimmed label returns an equivalent value.
pub proof fn lemma_trim_of_trimmed(s: Seq<char>)
    requires
        s.len() > 0,
        !is_space_char(s[0]),
        !is_space_char(s.last()),
    ensures
        trim_spec(s) == s,
{
    lemma_count_leading_at(s, 0);
    lemma_count_trailing_at(s, 0);
    assert(trim_spec(s) =~= s);
}

/// A person's display label: never empty, with no whitespace at either end.
#[derive(Debug)]
pub struct Name(String);

/// Why a raw string made no name.
#[derive(Clone, Copy, Debug, PartialEq, Eq, Structural)]
pub enum NameError {
    /// The raw string was empty or all whitespace.
    EmptyName,
}

impl View for Name {
    type V = Seq<char>;

    closed spec fn view(&self) -> Seq<char> {
        self.0@
    }
}

impl Name {
    /// Non-empty, and trimmed: whitespace at neither end.
    pub open spec fn wf(self) -> bool {
        &&& self@.len() > 0
        &&& !is_space_char(self@[0])
        &&& !is_space_char(self@.last())
    }

    pub fn as_str(&self) -> (r: &str)
        ensures
            r@ == self@,
    {
        self.0.as_str()
    }
}

impl Clone for Name {
    fn clone(&self) -> (r: Self)
        ensures
            r@ == self@,
    {
        Name(self.0.clone())
    }
}

impl PartialEq for Name {
    fn eq(&self, other: &Self) -> (r: bool)
        ensures
            r == (self@ == other@),
    {
        self.0 == other.0
    }
}

impl vstd::std_specs::cmp::PartialEqSpecImpl for Name {
    open spec fn obeys_eq_spec() -> bool {
        true
    }

    open spec fn eq_spec(&self, other: &Self) -> bool {
        self@ == other@
    }
}

/// Trims the raw string; an empty remainder is no name, anything else is
/// the name it spells.
pub fn validate_name(raw: &str) -> (r: Result<Name, NameError>)
    ensures
        match r {
            Ok(name) => name.wf() && name@ == trim_spec(raw@),
            Err(e) => e == NameError::EmptyName && trim_spec(raw@).len() == 0,
        },
        (r is Ok) <==> trim_spec(raw@).len() > 0,
{
    let n = raw.unicode_len();
    let mut i: usize = 0;
    while i < n && is_space(raw.get_char(i))
        invariant
            0 <= i <= n,
            n == raw@.len(),
            forall|j: int| 0 <= j < i ==> is_space_char(raw@[j]),
        decreases n - i,
    {
        i = i + 1;
    }
    proof {
        lemma_count_leading_at(raw@, i as int);
    }
    if i == n {
        return Err(NameError::EmptyName);
    }
    let mut j: usize = n;
    while j > i && is_space(raw.get_char(j - 1))
        invariant
            i <= j <= n,
            n == raw@.len(),
            i < n,
            !is_space_char(raw@[i as int]),
            forall|k: int| j <= k < n ==> is_space_char(raw@[k]),
        decreases j,
    {
        j = j - 1;
    }
    proof {
        assert(!is_space_char(raw@[j - 1])) by {
            if j == i {
                assert(false);
            }
        }
        lemma_count_trailing_at(raw@, n - j);
    }
    let trimmed = raw.substring_char(i, j);
    let name = Name(String::from_str(trimmed));
    proof {
        assert(name@ =~= trim_spec(raw@));
    }
    Ok(name)
}

} // verus!
