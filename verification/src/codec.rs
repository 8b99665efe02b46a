//! Name codec.
//!
//! A snapshot has no record besides its directory entry: the entry's name
//! carries both the name of the subvolume it was taken of and the instant it
//! was taken at, written as `<source_name>-<epoch_seconds>`.  Encoding never
//! escapes anything; decoding splits at the *last* separator, so a source
//! name may itself hold separators while the timestamp may not.

use vstd::prelude::*;
use vstd::string::*;

verus! {

/// The character between the source name and the timestamp.
pub const SEPARATOR: char = '-';

/// What a snapshot's entry name stands for.
#[derive(Clone, Debug, PartialEq, Eq)]
pub struct SnapshotIdentity {
    /// Final path segment of the subvolume that was snapshotted.
    pub source_name: String,
    /// Unix timestamp, in seconds, taken when the snapshot was created.
    pub created_at: i64,
}

impl View for SnapshotIdentity {
    type V = (Seq<char>, i64);

    open spec fn view(&self) -> (Seq<char>, i64) {
        (self.source_name@, self.created_at)
    }
}

/// Whether `c` is one of the ten ASCII decimal digits.
pub open spec fn is_digit(c: char) -> bool {
    '0' <= c <= '9'
}

/// The number a decimal digit stands for.
pub open spec fn digit_value(c: char) -> int {
    c as int - '0' as int
}

/// The decimal digit that stands for `d`, for `d` from 0 to 9.
pub open spec fn digit_char(d: int) -> char {
    (d + '0' as int) as char
}

/// Whether `text` is made of decimal digits only (the empty text is).
pub open spec fn all_digits(text: Seq<char>) -> bool {
    forall|i: int| 0 <= i < text.len() ==> is_digit(#[trigger] text[i])
}

/// The number that a text of decimal digits denotes, most significant digit
/// first; leading zeros change nothing.
pub open spec fn decimal_value(text: Seq<char>) -> int
    decreases text.len(),
{
    if text.len() == 0 {
        0
    } else {
        10 * decimal_value(text.drop_last()) + digit_value(text.last())
    }
}

/// The shortest decimal text that denotes `n`.
pub open spec fn decimal_text(n: nat) -> Seq<char>
    decreases n,
{
    if n < 10 {
        seq![digit_char(n as int)]
    } else {
        decimal_text(n / 10).push(digit_char((n % 10) as int))
    }
}

/// An instant as it is written in an entry name: its decimal text, behind a
/// minus sign where it lies before the epoch.
pub open spec fn instant_text(instant: int) -> Seq<char> {
    if instant < 0 {
        seq![SEPARATOR] + decimal_text((-instant) as nat)
    } else {
        decimal_text(instant as nat)
    }
}

/// The entry name of a snapshot of `source_name` taken at `instant`.
pub open spec fn encoded(source_name: Seq<char>, instant: int) -> Seq<char> {
    source_name + seq![SEPARATOR] + instant_text(instant)
}

/// Whether `text` can stand behind the last separator of a snapshot's entry
/// name: one or more decimal digits that denote a number an `i64` holds.
pub open spec fn is_timestamp(text: Seq<char>) -> bool {
    &&& text.len() > 0
    &&& all_digits(text)
    &&& decimal_value(text) <= i64::MAX
}

/// Where the last separator of `text` stands, if it holds one.
pub open spec fn last_separator(text: Seq<char>) -> Option<int>
    decreases text.len(),
{
    if text.len() == 0 {
        None
    } else if text.last() == SEPARATOR {
        Some(text.len() - 1)
    } else {
        last_separator(text.drop_last())
    }
}

/// The identity that an entry name carries, if it carries one: what stands
/// before the last separator is the source name, what stands behind it the
/// timestamp.
pub open spec fn decoded(entry_name: Seq<char>) -> Option<(Seq<char>, i64)> {
    match last_separator(entry_name) {
        None => None,
        Some(at) => {
            let suffix = entry_name.subrange(at + 1, entry_name.len() as int);
            if is_timestamp(suffix) {
                Some((entry_name.subrange(0, at), decimal_value(suffix) as i64))
            } else {
                None
            }
        },
    }
}

/// `last_separator` finds a separator, and none stands behind it; it finds
/// none only where there is none.
pub proof fn lemma_last_separator(text: Seq<char>)
    ensures
        match last_separator(text) {
            Some(at) => {
                &&& 0 <= at < text.len()
                &&& text[at] == SEPARATOR
                &&& forall|j: int| at < j < text.len() ==> text[j] != SEPARATOR
            },
            None => forall|j: int| 0 <= j < text.len() ==> text[j] != SEPARATOR,
        },
    decreases text.len(),
{
    if text.len() > 0 && text.last() != SEPARATOR {
        let head = text.drop_last();
        lemma_last_separator(head);
        assert forall|j: int| 0 <= j < head.len() implies head[j] == text[j] by {}
        match last_separator(head) {
            Some(at) => {
                assert forall|j: int| at < j < text.len() implies text[j] != SEPARATOR by {
                    if j < head.len() {
                        assert(head[j] != SEPARATOR);
                    }
                }
            },
            None => {
                assert forall|j: int| 0 <= j < text.len() implies text[j] != SEPARATOR by {
                    if j < head.len() {
                        assert(head[j] != SEPARATOR);
                    }
                }
            },
        }
    }
}

/// A separator with none behind it is the one that `last_separator` finds.
pub proof fn lemma_last_separator_is(text: Seq<char>, at: int)
    requires
        0 <= at < text.len(),
        text[at] == SEPARATOR,
        forall|j: int| at < j < text.len() ==> text[j] != SEPARATOR,
    ensures
        last_separator(text) == Some(at),
{
    lemma_last_separator(text);
}

/// The decimal text of a number is made of digits, is not empty, and denotes
/// that number.
pub proof fn lemma_decimal_text(n: nat)
    ensures
        decimal_text(n).len() > 0,
        all_digits(decimal_text(n)),
        decimal_value(decimal_text(n)) == n,
    decreases n,
{
    if n < 10 {
        let text = decimal_text(n);
        assert(text.drop_last() =~= Seq::<char>::empty());
        assert(decimal_value(text.drop_last()) == 0);
    } else {
        lemma_decimal_text(n / 10);
        let head = decimal_text(n / 10);
        let text = decimal_text(n);
        assert(text.drop_last() =~= head);
    }
}

/// A text of digits denotes no less than any text it begins with.
pub proof fn lemma_decimal_value_grows(text: Seq<char>, k: int)
    requires
        all_digits(text),
        0 <= k <= text.len(),
    ensures
        0 <= decimal_value(text.subrange(0, k)) <= decimal_value(text),
    decreases text.len() - k,
{
    lemma_decimal_value_nonnegative(text.subrange(0, k));
    if k < text.len() {
        lemma_decimal_value_grows(text, k + 1);
        let longer = text.subrange(0, k + 1);
        assert(longer.drop_last() =~= text.subrange(0, k));
        assert(is_digit(text[k]));
    } else {
        assert(text.subrange(0, k) =~= text);
    }
}

/// A text of digits denotes no negative number.
pub proof fn lemma_decimal_value_nonnegative(text: Seq<char>)
    requires
        all_digits(text),
    ensures
        0 <= decimal_value(text),
    decreases text.len(),
{
    if text.len() > 0 {
        lemma_decimal_value_nonnegative(text.drop_last());
        assert(is_digit(text.last()));
    }
}

/// Decoding undoes encoding: for every source name, whatever separators or
/// digits it holds, and every instant from the epoch on, the entry name that
/// `encoded` gives decodes to that name and that instant.
pub proof fn lemma_decode_encode(source_name: Seq<char>, instant: i64)
    requires
        instant >= 0,
    ensures
        decoded(encoded(source_name, instant as int)) == Some((source_name, instant)),
{
    let digits = decimal_text(instant as nat);
    let entry = encoded(source_name, instant as int);
    let at = source_name.len() as int;
    lemma_decimal_text(instant as nat);
    assert forall|j: int| at < j < entry.len() implies entry[j] != SEPARATOR by {
        assert(entry[j] == digits[j - at - 1]);
        assert(is_digit(digits[j - at - 1]));
    }
    lemma_last_separator_is(entry, at);
    assert(entry.subrange(at + 1, entry.len() as int) =~= digits);
    assert(entry.subrange(0, at) =~= source_name);
}

/// What decodes is a source name, a separator and a timestamp: the entry
/// name is the decoded source name, the separator, and digits that denote
/// the decoded instant.  The digits hold no separator, so the split is the
/// only one there is; they may begin with zeros, so two entry names may
/// decode to one identity.
pub proof fn lemma_decoded_is_split(entry_name: Seq<char>)
    requires
        decoded(entry_name) is Some,
    ensures
        ({
            let (source_name, instant) = decoded(entry_name)->0;
            let digits = entry_name.subrange(source_name.len() as int + 1, entry_name.len() as int);
            &&& source_name.len() < entry_name.len()
            &&& entry_name == source_name + seq![SEPARATOR] + digits
            &&& is_timestamp(digits)
            &&& decimal_value(digits) == instant
            &&& !digits.contains(SEPARATOR)
        }),
{
    lemma_last_separator(entry_name);
    let at = last_separator(entry_name)->0;
    let source_name = entry_name.subrange(0, at);
    let digits = entry_name.subrange(at + 1, entry_name.len() as int);
    assert(source_name.len() == at);
    assert(entry_name =~= source_name + seq![SEPARATOR] + digits);
    lemma_decimal_value_nonnegative(digits);
    if digits.contains(SEPARATOR) {
        let k = choose|k: int| 0 <= k < digits.len() && digits[k] == SEPARATOR;
        assert(entry_name[at + 1 + k] == SEPARATOR);
    }
}

/// An entry name that holds no separator decodes to nothing.
pub proof fn lemma_decode_without_separator(entry_name: Seq<char>)
    requires
        !entry_name.contains(SEPARATOR),
    ensures
        decoded(entry_name) is None,
{
    lemma_last_separator(entry_name);
    if let Some(at) = last_separator(entry_name) {
        assert(entry_name.contains(entry_name[at]));
    }
}

/// An entry name decodes to nothing where what stands behind its last
/// separator is empty, holds anything but decimal digits, or denotes a number
/// beyond `i64::MAX`.
pub proof fn lemma_decode_without_timestamp(head: Seq<char>, suffix: Seq<char>)
    requires
        !suffix.contains(SEPARATOR),
        !is_timestamp(suffix),
    ensures
        decoded(head + seq![SEPARATOR] + suffix) is None,
{
    let entry = head + seq![SEPARATOR] + suffix;
    let at = head.len() as int;
    assert forall|j: int| at < j < entry.len() implies entry[j] != SEPARATOR by {
        assert(entry[j] == suffix[j - at - 1]);
        assert(suffix.contains(suffix[j - at - 1]));
    }
    lemma_last_separator_is(entry, at);
    assert(entry.subrange(at + 1, entry.len() as int) =~= suffix);
}

/// The one-character text of a decimal digit.
fn digit_text(d: u8) -> (r: &'static str)
    requires
        d <= 9,
    ensures
        r@ == seq![digit_char(d as int)],
{
    proof {
        reveal_strlit("0");
        reveal_strlit("1");
        reveal_strlit("2");
        reveal_strlit("3");
        reveal_strlit("4");
        reveal_strlit("5");
        reveal_strlit("6");
        reveal_strlit("7");
        reveal_strlit("8");
        reveal_strlit("9");
    }
    let r = match d {
        0 => "0",
        1 => "1",
        2 => "2",
        3 => "3",
        4 => "4",
        5 => "5",
        6 => "6",
        7 => "7",
        8 => "8",
        _ => "9",
    };
    assert(r@ =~= seq![digit_char(d as int)]);
    r
}

/// Appends the decimal text of `n` to `out`.
pub(crate) fn push_decimal(out: &mut String, n: u64)
    ensures
        final(out)@ == old(out)@ + decimal_text(n as nat),
    decreases n,
{
    if n >= 10 {
        push_decimal(out, n / 10);
    }
    out.append(digit_text((n % 10) as u8));
    assert(out@ =~= old(out)@ + decimal_text(n as nat));
}

/// The entry name of a snapshot of `source_name` taken at `instant`:
/// the name, the separator, and the instant's epoch seconds in decimal.
pub fn encode(source_name: &str, instant: i64) -> (entry_name: String)
    ensures
        entry_name@ == encoded(source_name@, instant as int),
{
    let mut out = String::from_str(source_name);
    proof {
        reveal_strlit("-");
    }
    out.append("-");
    let magnitude: u64 = if instant < 0 {
        out.append("-");
        (-(instant as i128)) as u64
    } else {
        instant as u64
    };
    push_decimal(&mut out, magnitude);
    assert(out@ =~= encoded(source_name@, instant as int));
    out
}

/// The characters of `text`, in order.
fn chars_of(text: &str) -> (chars: Vec<char>)
    ensures
        chars@ == text@,
{
    let mut chars: Vec<char> = Vec::new();
    for c in it: text.chars()
        invariant
            chars@ == it.seq().take(it.index()),
    {
        chars.push(c);
    }
    chars
}

/// Reads `text[from..]` as a timestamp.
fn parse_timestamp(text: &Vec<char>, from: usize) -> (r: Option<i64>)
    requires
        from <= text.len(),
    ensures
        match r {
            Some(t) => is_timestamp(text@.subrange(from as int, text.len() as int))
                && t == decimal_value(text@.subrange(from as int, text.len() as int)),
            None => !is_timestamp(text@.subrange(from as int, text.len() as int)),
        },
{
    let ghost suffix = text@.subrange(from as int, text.len() as int);
    if from == text.len() {
        return None;
    }
    let mut value: i64 = 0;
    let mut i: usize = from;
    while i < text.len()
        invariant
            from <= i <= text.len(),
            suffix == text@.subrange(from as int, text.len() as int),
            all_digits(suffix.subrange(0, i - from)),
            value == decimal_value(suffix.subrange(0, i - from)),
            0 <= value,
        decreases text.len() - i,
    {
        let c = text[i];
        let ghost seen = suffix.subrange(0, i - from);
        let ghost next = suffix.subrange(0, i - from + 1);
        assert(suffix[i - from] == c);
        if !('0' <= c && c <= '9') {
            return None;
        }
        let d: i64 = (c as u32 - '0' as u32) as i64;
        proof {
            assert(next.drop_last() =~= seen);
            assert(next.last() == c);
            assert(all_digits(next)) by {
                assert forall|j: int| 0 <= j < next.len() implies is_digit(#[trigger] next[j]) by {
                    if j < seen.len() {
                        assert(next[j] == seen[j]);
                    }
                }
            }
        }
        if value > (i64::MAX - d) / 10 {
            proof {
                assert(decimal_value(next) > i64::MAX);
                if all_digits(suffix) {
                    lemma_decimal_value_grows(suffix, i - from + 1);
                }
            }
            return None;
        }
        value = value * 10 + d;
        i += 1;
    }
    proof {
        assert(suffix.subrange(0, i - from) =~= suffix);
    }
    Some(value)
}

/// Reads an entry name back into the identity it carries.
///
/// The name is split at its last separator.  Where it holds no separator, or
/// what follows the last one is not a timestamp, the entry is no snapshot of
/// ours and `None` comes back: that is an answer, not a failure.
pub fn decode(entry_name: &str) -> (identity: Option<SnapshotIdentity>)
    ensures
        match identity {
            Some(id) => decoded(entry_name@) == Some(id@),
            None => decoded(entry_name@) is None,
        },
        identity is Some <==> (last_separator(entry_name@) matches Some(at) && is_timestamp(
            entry_name@.subrange(at + 1, entry_name@.len() as int),
        )),
        !entry_name@.contains(SEPARATOR) ==> identity is None,
{
    let chars = chars_of(entry_name);
    let mut end: usize = chars.len();
    while end > 0 && chars[end - 1] != SEPARATOR
        invariant
            end <= chars.len(),
            forall|j: int| end <= j < chars.len() ==> chars@[j] != SEPARATOR,
        decreases end,
    {
        end -= 1;
    }
    proof {
        lemma_last_separator(chars@);
        if !entry_name@.contains(SEPARATOR) {
            lemma_decode_without_separator(entry_name@);
        }
    }
    if end == 0 {
        return None;
    }
    let at: usize = end - 1;
    proof {
        lemma_last_separator_is(chars@, at as int);
    }
    match parse_timestamp(&chars, end) {
        None => None,
        Some(created_at) => {
            let source_name = entry_name.substring_char(0, at).to_owned();
            Some(SnapshotIdentity { source_name, created_at })
        },
    }
}

} // verus!
