use vstd::prelude::*;
use vstd::string::*;

use crate::text::chars_of;

verus! {

/// The longest name accepted, counted in grapheme clusters after trimming.
pub const MAX_NAME_LENGTH: usize = 256;

/// The number of extended grapheme clusters in `text`: what a reader would
/// call its letters, each with the marks that belong to it. The count
/// follows the Unicode rules for cluster boundaries and depends on the
/// text alone.
pub uninterp spec fn grapheme_count(text: Seq<char>) -> nat;

/// Calls `unicode_segmentation::UnicodeSegmentation::graphemes` for
/// extended clusters and counts what it yields.
///
/// Believed, not proved: the count depends on the text alone; every cluster
/// holds at least one character, so there are no more clusters than
/// characters; and a text that is not empty has at least one.
#[verifier::external_body]
fn count_graphemes(text: &str) -> (n: usize)
    ensures
        n == grapheme_count(text@),
        n <= text@.len(),
        text@.len() > 0 ==> n >= 1,
{
    unicode_segmentation::UnicodeSegmentation::graphemes(text, true).count()
}

/// The characters of the Unicode `White_Space` property, which is what
/// trimming removes from both ends of a submitted name.
pub open spec fn is_whitespace(c: char) -> bool {
    let u = c as u32;
    ||| 0x09 <= u <= 0x0D
    ||| u == 0x20
    ||| u == 0x85
    ||| u == 0xA0
    ||| u == 0x1680
    ||| 0x2000 <= u <= 0x200A
    ||| u == 0x2028
    ||| u == 0x2029
    ||| u == 0x202F
    ||| u == 0x205F
    ||| u == 0x3000
}

/// The characters that may not occur anywhere in a name:
/// `/ ( ) " < > \ { }`.
pub open spec fn is_forbidden(c: char) -> bool {
    ||| c == '/'
    ||| c == '('
    ||| c == ')'
    ||| c == '"'
    ||| c == '<'
    ||| c == '>'
    ||| c == '\\'
    ||| c == '{'
    ||| c == '}'
}

/// The number of whitespace characters at the front of `s`.
pub open spec fn leading_whitespace(s: Seq<char>) -> nat
    decreases s.len(),
{
    if s.len() > 0 && is_whitespace(s[0]) {
        1 + leading_whitespace(s.drop_first())
    } else {
        0
    }
}

/// The number of whitespace characters at the back of `s`.
pub open spec fn trailing_whitespace(s: Seq<char>) -> nat
    decreases s.len(),
{
    if s.len() > 0 && is_whitespace(s.last()) {
        1 + trailing_whitespace(s.drop_last())
    } else {
        0
    }
}

/// `s` without its leading and trailing whitespace. A string made of
/// whitespace only trims to the empty string.
pub open spec fn trim(s: Seq<char>) -> Seq<char> {
    let start = leading_whitespace(s) as int;
    let rest = s.subrange(start, s.len() as int);
    rest.subrange(0, rest.len() - trailing_whitespace(rest))
}

/// What makes an already trimmed string with `graphemes` grapheme clusters
/// a name: it is not empty, it has at most 256 clusters, and none of its
/// characters is forbidden.
pub open spec fn is_name_of(s: Seq<char>, graphemes: nat) -> bool {
    &&& 0 < s.len()
    &&& graphemes <= MAX_NAME_LENGTH
    &&& forall|i: int| 0 <= i < s.len() ==> !is_forbidden(#[trigger] s[i])
}

/// What makes an already trimmed string a name: it is not empty, it has at
/// most 256 grapheme clusters, and none of its characters is forbidden.
pub open spec fn is_valid_name(s: Seq<char>) -> bool {
    is_name_of(s, grapheme_count(s))
}

/// The message with which `raw` is turned down.
pub open spec fn name_rejection(raw: Seq<char>) -> Seq<char> {
    raw + " is not a valid subscriber name."@
}

pub fn is_whitespace_char(c: char) -> (b: bool)
    ensures
        b == is_whitespace(c),
{
    let u: u32 = c as u32;
    (0x09 <= u && u <= 0x0D) || u == 0x20 || u == 0x85 || u == 0xA0 || u == 0x1680 || (0x2000 <= u
        && u <= 0x200A) || u == 0x2028 || u == 0x2029 || u == 0x202F || u == 0x205F || u == 0x3000
}

pub fn is_forbidden_char(c: char) -> (b: bool)
    ensures
        b == is_forbidden(c),
{
    c == '/' || c == '(' || c == ')' || c == '"' || c == '<' || c == '>' || c == '\\' || c == '{'
        || c == '}'
}

/// What parsing makes of `raw`: the trimmed name, or the message that turns
/// `raw` down.
pub open spec fn parsed_name(raw: Seq<char>) -> Result<Seq<char>, Seq<char>> {
    if is_valid_name(trim(raw)) {
        Ok(trim(raw))
    } else {
        Err(name_rejection(raw))
    }
}

/// A run of `k` whitespace characters followed by the end of `s` or by
/// another character is all the leading whitespace there is.
proof fn lemma_leading_whitespace(s: Seq<char>, k: int)
    requires
        0 <= k <= s.len(),
        forall|j: int| 0 <= j < k ==> is_whitespace(#[trigger] s[j]),
        k == s.len() || !is_whitespace(s[k]),
    ensures
        leading_whitespace(s) == k,
    decreases k,
{
    if k > 0 {
        let rest = s.drop_first();
        assert forall|j: int| 0 <= j < k - 1 implies is_whitespace(#[trigger] rest[j]) by {
            assert(rest[j] == s[j + 1]);
        }
        lemma_leading_whitespace(rest, k - 1);
    }
}

/// The same from the back: `k` is where the trailing whitespace begins.
proof fn lemma_trailing_whitespace(s: Seq<char>, k: int)
    requires
        0 <= k <= s.len(),
        forall|j: int| k <= j < s.len() ==> is_whitespace(#[trigger] s[j]),
        k == 0 || !is_whitespace(s[k - 1]),
    ensures
        trailing_whitespace(s) == s.len() - k,
    decreases s.len() - k,
{
    if k < s.len() {
        let rest = s.drop_last();
        assert forall|j: int| k <= j < rest.len() implies is_whitespace(#[trigger] rest[j]) by {
            assert(rest[j] == s[j]);
        }
        lemma_trailing_whitespace(rest, k);
    }
}

/// `s` without the whitespace at its ends.
pub fn trimmed(s: &str) -> (t: &str)
    ensures
        t@ == trim(s@),
{
    let chars = chars_of(s);
    let n = chars.len();
    let mut start: usize = 0;
    while start < n && is_whitespace_char(chars[start])
        invariant
            n == chars.len(),
            start <= n,
            forall|j: int| 0 <= j < start ==> is_whitespace(#[trigger] chars@[j]),
        decreases n - start,
    {
        start += 1;
    }
    let mut end: usize = n;
    while end > start && is_whitespace_char(chars[end - 1])
        invariant
            n == chars.len(),
            start <= end <= n,
            forall|j: int| end <= j < n ==> is_whitespace(#[trigger] chars@[j]),
        decreases end,
    {
        end -= 1;
    }
    proof {
        lemma_leading_whitespace(s@, start as int);
        let rest = s@.subrange(start as int, n as int);
        assert forall|j: int| end - start <= j < rest.len() implies is_whitespace(
            #[trigger] rest[j],
        ) by {
            assert(rest[j] == s@[j + start]);
        }
        lemma_trailing_whitespace(rest, end - start);
        assert(trim(s@) == s@.subrange(start as int, end as int));
    }
    s.substring_char(start, end)
}

/// Whether the already trimmed `text`, which has `graphemes` grapheme
/// clusters, is a name. The count is taken as given here;
/// [`SubscriberName::parse`] is what asks for it.
pub fn is_name(text: &str, graphemes: usize) -> (valid: bool)
    ensures
        valid == is_name_of(text@, graphemes as nat),
{
    let chars = chars_of(text);
    if chars.len() == 0 || graphemes > MAX_NAME_LENGTH {
        return false;
    }
    let mut i: usize = 0;
    while i < chars.len()
        invariant
            i <= chars.len(),
            chars@ == text@,
            forall|j: int| 0 <= j < i ==> !is_forbidden(#[trigger] chars@[j]),
        decreases chars.len() - i,
    {
        if is_forbidden_char(chars[i]) {
            return false;
        }
        i += 1;
    }
    true
}

/// A subscriber's name as it was submitted, without the whitespace around
/// it. The only way to one is [`SubscriberName::parse`].
#[derive(Debug)]
pub struct SubscriberName(String);

impl View for SubscriberName {
    type V = Seq<char>;

    closed spec fn view(&self) -> Seq<char> {
        self.0@
    }
}

impl SubscriberName {
    #[verifier::type_invariant]
    spec fn well_formed(self) -> bool {
        is_valid_name(self.0@)
    }

    /// Trims `s` and accepts what is left if it is a valid name. A rejected
    /// input comes back inside the error message, untrimmed. Whatever has,
    /// once trimmed, between 1 and 256 characters and none that is
    /// forbidden is accepted, since it cannot have more clusters than
    /// characters.
    pub fn parse(s: String) -> (r: Result<SubscriberName, String>)
        ensures
            match r {
                Ok(name) => parsed_name(s@) == Ok::<Seq<char>, Seq<char>>(name@),
                Err(message) => parsed_name(s@) == Err::<Seq<char>, Seq<char>>(message@),
            },
            is_name_of(trim(s@), trim(s@).len()) ==> r is Ok,
            r is Ok ==> 1 <= grapheme_count(trim(s@)) <= trim(s@).len(),
    {
        let text = trimmed(s.as_str());
        let graphemes = count_graphemes(text);
        let name = if is_name(text, graphemes) {
            Some(String::from_str(text))
        } else {
            None
        };
        match name {
            Some(name) => Ok(SubscriberName(name)),
            None => Err(s.concat(" is not a valid subscriber name.")),
        }
    }

    /// The name as text.
    pub fn as_ref(&self) -> (text: &str)
        ensures
            text@ == self@,
            is_valid_name(text@),
    {
        proof {
            use_type_invariant(self);
        }
        self.0.as_str()
    }
}

/// Neither count of whitespace exceeds the length of the string.
proof fn lemma_whitespace_counts_bounded(s: Seq<char>)
    ensures
        leading_whitespace(s) <= s.len(),
        trailing_whitespace(s) <= s.len(),
    decreases s.len(),
{
    if s.len() > 0 {
        lemma_whitespace_counts_bounded(s.drop_first());
        lemma_whitespace_counts_bounded(s.drop_last());
    }
}

/// Trimming cuts a window out of the string: nothing is added, reordered or
/// changed, and the window is no longer than the string.
pub proof fn lemma_trim_is_window(s: Seq<char>)
    ensures
        trim(s).len() <= s.len(),
        exists|from: int|
            0 <= from && from + trim(s).len() <= s.len() && trim(s) == #[trigger] s.subrange(
                from,
                from + trim(s).len(),
            ),
{
    let start = leading_whitespace(s) as int;
    lemma_whitespace_counts_bounded(s);
    let rest = s.subrange(start, s.len() as int);
    lemma_whitespace_counts_bounded(rest);
    assert(trim(s) =~= s.subrange(start, start + trim(s).len()));
}

/// A string with whitespace at neither end is its own trimmed form.
pub proof fn lemma_trim_leaves_trimmed_text(s: Seq<char>)
    requires
        s.len() > 0 ==> !is_whitespace(s[0]) && !is_whitespace(s.last()),
    ensures
        trim(s) == s,
{
    assert(s.subrange(0, s.len() as int) =~= s);
}

/// A string that is empty, or made of whitespace only, is never a name.
pub proof fn lemma_blank_name_rejected(raw: Seq<char>)
    requires
        forall|i: int| 0 <= i < raw.len() ==> is_whitespace(#[trigger] raw[i]),
    ensures
        trim(raw).len() == 0,
        parsed_name(raw) == Err::<Seq<char>, Seq<char>>(name_rejection(raw)),
{
    lemma_leading_whitespace(raw, raw.len() as int);
}

/// A string that still has more than 256 grapheme clusters once trimmed
/// is never a name.
pub proof fn lemma_long_name_rejected(raw: Seq<char>)
    requires
        grapheme_count(trim(raw)) > MAX_NAME_LENGTH,
    ensures
        parsed_name(raw) == Err::<Seq<char>, Seq<char>>(name_rejection(raw)),
{
}

/// A string without forbidden characters whose trimmed form is not empty
/// and has at most 256 grapheme clusters is accepted, and the name is
/// exactly that trimmed form.
pub proof fn lemma_clean_name_accepted(raw: Seq<char>)
    requires
        0 < trim(raw).len(),
        grapheme_count(trim(raw)) <= MAX_NAME_LENGTH,
        forall|i: int| 0 <= i < raw.len() ==> !is_forbidden(#[trigger] raw[i]),
    ensures
        parsed_name(raw) == Ok::<Seq<char>, Seq<char>>(trim(raw)),
{
    lemma_trim_is_window(raw);
    let t = trim(raw);
    let from = choose|from: int|
        0 <= from && from + t.len() <= raw.len() && t == #[trigger] raw.subrange(
            from,
            from + t.len(),
        );
    assert forall|i: int| 0 <= i < t.len() implies !is_forbidden(#[trigger] t[i]) by {
        assert(t[i] == raw[from + i]);
    }
}

/// One forbidden character that survives trimming is enough to turn the
/// input down.
pub proof fn lemma_forbidden_name_rejected(raw: Seq<char>, i: int)
    requires
        0 <= i < trim(raw).len(),
        is_forbidden(trim(raw)[i]),
    ensures
        parsed_name(raw) == Err::<Seq<char>, Seq<char>>(name_rejection(raw)),
{
}

} // verus!
