//! The message that travels between the master and its workers.

use crate::buffer::octets;
use crate::connection::DATAGRAM_SIZE;
use crate::error::DecodeError;
use crate::search::{first_index, lemma_first_index, lemma_first_index_at};
use crate::text::{
    decimal_digits, is_digit, lemma_ascii_valid_utf8, lemma_decimal_digits_shape,
    lemma_parse_decimal_digits, parse_decimal, parse_u64, push_decimal, str_eq, string_from_utf8,
};
use bytes::Bytes;
use vstd::prelude::*;
use vstd::slice::{slice_subrange, slice_to_vec};
use vstd::utf8::*;

verus! {

/// What an issue asks of its receiver.
#[derive(Clone, Copy, Debug, PartialEq, Eq, Hash, Structural)]
pub enum IssueType {
    /// The master asks the workers to vote for a text.
    Proposal,
    /// A worker votes for a proposal.
    Vote,
    /// A proposal was decided.
    Resolution,
}

/// One decree on its way: its text, its number and the stage it is in.
#[derive(Debug, Eq, Hash)]
pub struct Issue {
    content: String,
    id: u64,
    issue_type: IssueType,
}

/// An issue as plain values.
pub struct IssueView {
    pub content: Seq<char>,
    pub id: u64,
    pub kind: IssueType,
}

impl View for Issue {
    type V = IssueView;

    closed spec fn view(&self) -> IssueView {
        IssueView { content: self.content@, id: self.id, kind: self.issue_type }
    }
}

impl Clone for Issue {
    /// A copy with the same text, number and kind.
    fn clone(&self) -> (r: Self)
        ensures
            r@ == self@,
    {
        Issue { content: self.content.clone(), id: self.id, issue_type: self.issue_type }
    }
}

impl PartialEq for Issue {
    /// Whether two issues have the same text, number and kind.
    fn eq(&self, other: &Self) -> (r: bool) {
        self.id == other.id && self.issue_type == other.issue_type && self.content == other.content
    }
}

impl vstd::std_specs::cmp::PartialEqSpecImpl for Issue {
    open spec fn obeys_eq_spec() -> bool {
        true
    }

    open spec fn eq_spec(&self, other: &Self) -> bool {
        self@ == other@
    }
}

impl Issue {
    /// An issue with this text, number and kind.
    pub fn new(content: String, id: u64, issue_type: IssueType) -> (r: Self)
        ensures
            r@ == (IssueView { content: content@, id, kind: issue_type }),
    {
        Issue { content, id, issue_type }
    }

    /// The text.
    pub fn content(&self) -> (r: String)
        ensures
            r@ == self@.content,
    {
        self.content.clone()
    }

    /// The text, without copying it.
    pub fn content_ref(&self) -> (r: &str)
        ensures
            r@ == self@.content,
    {
        self.content.as_str()
    }

    /// The number.
    pub fn id(&self) -> (r: u64)
        ensures
            r == self@.id,
    {
        self.id
    }

    /// The kind.
    pub fn issue_type(&self) -> (r: IssueType)
        ensures
            r == self@.kind,
    {
        self.issue_type
    }
}


/// The byte `|`, which stands between the fields of an issue on the wire.
pub const BAR: u8 = 0x7c;

/// Where the first bar of `s` stands, or the length of `s` if it holds none.
pub open spec fn first_bar(s: Seq<u8>) -> int {
    first_index(s, |b: u8| b == BAR)
}

/// The fields that the bars cut `s` into: one more than there are bars.
pub open spec fn fields(s: Seq<u8>) -> Seq<Seq<u8>>
    decreases s.len(),
{
    let i = first_bar(s);
    if 0 <= i < s.len() {
        seq![s.subrange(0, i)] + fields(s.subrange(i + 1, s.len() as int))
    } else {
        seq![s]
    }
}

/// Whether `s` holds no bar.
pub open spec fn bar_free(s: Seq<u8>) -> bool {
    forall|k: int| 0 <= k < s.len() ==> #[trigger] s[k] != BAR
}

impl IssueType {
    /// The letter that stands for this kind on the wire.
    pub open spec fn letter_spec(self) -> u8 {
        match self {
            IssueType::Proposal => 0x70,
            IssueType::Vote => 0x76,
            IssueType::Resolution => 0x72,
        }
    }

    /// The kind that a field names, if it is one of the three letters.
    pub open spec fn of_field(field: Seq<u8>) -> Option<IssueType> {
        if field.len() != 1 {
            None
        } else if field[0] == 0x70 {
            Some(IssueType::Proposal)
        } else if field[0] == 0x76 {
            Some(IssueType::Vote)
        } else if field[0] == 0x72 {
            Some(IssueType::Resolution)
        } else {
            None
        }
    }

    /// The letter that stands for this kind on the wire: `p`, `v` or `r`.
    pub fn letter(self) -> (b: u8)
        ensures
            b == self.letter_spec(),
    {
        match self {
            IssueType::Proposal => 0x70,
            IssueType::Vote => 0x76,
            IssueType::Resolution => 0x72,
        }
    }

    /// Reads a kind from the first field of a frame.
    pub fn from_field(field: &[u8]) -> (r: Option<IssueType>)
        ensures
            r == IssueType::of_field(field@),
    {
        if field.len() != 1 {
            None
        } else if field[0] == 0x70 {
            Some(IssueType::Proposal)
        } else if field[0] == 0x76 {
            Some(IssueType::Vote)
        } else if field[0] == 0x72 {
            Some(IssueType::Resolution)
        } else {
            None
        }
    }
}

/// The text that names a kind: `p`, `v` or `r`.
pub open spec fn kind_text(kind: IssueType) -> Seq<char> {
    match kind {
        IssueType::Proposal => "p"@,
        IssueType::Vote => "v"@,
        IssueType::Resolution => "r"@,
    }
}

/// The kind that a text names, if any.
pub open spec fn kind_of_text(text: Seq<char>) -> Option<IssueType> {
    if text == "r"@ {
        Some(IssueType::Resolution)
    } else if text == "v"@ {
        Some(IssueType::Vote)
    } else if text == "p"@ {
        Some(IssueType::Proposal)
    } else {
        None
    }
}

impl From<IssueType> for String {
    /// The text that names a kind.
    fn from(kind: IssueType) -> (r: String)
        ensures
            r@ == kind_text(kind),
    {
        match kind {
            IssueType::Proposal => "p".to_owned(),
            IssueType::Vote => "v".to_owned(),
            IssueType::Resolution => "r".to_owned(),
        }
    }
}

/// What the conversion returns is stated over views, in its own contract;
/// no value is named for it here.
impl vstd::std_specs::convert::FromSpecImpl<IssueType> for String {
    open spec fn obeys_from_spec() -> bool {
        false
    }

    open spec fn from_spec(v: IssueType) -> String {
        arbitrary()
    }
}

impl TryFrom<&str> for IssueType {
    type Error = DecodeError;

    /// The kind that a text names.
    fn try_from(value: &str) -> (r: Result<IssueType, DecodeError>)
        ensures
            r == match kind_of_text(value@) {
                Some(kind) => Ok::<IssueType, DecodeError>(kind),
                None => Err::<IssueType, DecodeError>(DecodeError::UnknownKind),
            },
    {
        if str_eq(value, "r") {
            Ok(IssueType::Resolution)
        } else if str_eq(value, "v") {
            Ok(IssueType::Vote)
        } else if str_eq(value, "p") {
            Ok(IssueType::Proposal)
        } else {
            Err(DecodeError::UnknownKind)
        }
    }
}

impl vstd::std_specs::convert::TryFromSpecImpl<&str> for IssueType {
    open spec fn obeys_try_from_spec() -> bool {
        true
    }

    open spec fn try_from_spec(v: &str) -> Result<IssueType, DecodeError> {
        match kind_of_text(v@) {
            Some(kind) => Ok(kind),
            None => Err(DecodeError::UnknownKind),
        }
    }
}

impl TryFrom<String> for IssueType {
    type Error = DecodeError;

    /// The kind that a text names.
    fn try_from(value: String) -> (r: Result<IssueType, DecodeError>)
        ensures
            r == match kind_of_text(value@) {
                Some(kind) => Ok::<IssueType, DecodeError>(kind),
                None => Err::<IssueType, DecodeError>(DecodeError::UnknownKind),
            },
    {
        IssueType::try_from(value.as_str())
    }
}

impl vstd::std_specs::convert::TryFromSpecImpl<String> for IssueType {
    open spec fn obeys_try_from_spec() -> bool {
        true
    }

    open spec fn try_from_spec(v: String) -> Result<IssueType, DecodeError> {
        match kind_of_text(v@) {
            Some(kind) => Ok(kind),
            None => Err(DecodeError::UnknownKind),
        }
    }
}

/// The frame of an issue: its kind letter, its number in base 10 and its
/// text as UTF-8, with a bar between each two.
pub open spec fn encode_spec(v: IssueView) -> Seq<u8> {
    seq![v.kind.letter_spec(), BAR] + decimal_digits(v.id as nat) + seq![BAR] + encode_utf8(
        v.content,
    )
}

/// What a frame decodes to.
///
/// The frame must be UTF-8 and the bars must cut it into exactly three
/// fields: a kind letter, a number and the text.
pub open spec fn decode_spec(frame: Seq<u8>) -> Result<IssueView, DecodeError> {
    let parts = fields(frame);
    if !valid_utf8(frame) {
        Err(DecodeError::InvalidUtf8)
    } else if parts.len() != 3 {
        Err(DecodeError::Framing)
    } else {
        match IssueType::of_field(parts[0]) {
            None => Err(DecodeError::UnknownKind),
            Some(kind) => match parse_decimal(parts[1]) {
                None => Err(DecodeError::InvalidId),
                Some(id) => Ok(IssueView { content: decode_utf8(parts[2]), id, kind }),
            },
        }
    }
}

/// The first bar stands inside or at the end of the sequence, nothing before
/// it is a bar, and what stands there is one.
pub proof fn lemma_first_bar(s: Seq<u8>)
    ensures
        0 <= first_bar(s) <= s.len(),
        bar_free(s.subrange(0, first_bar(s))),
        first_bar(s) < s.len() ==> s[first_bar(s)] == BAR,
{
    lemma_first_index(s, |b: u8| b == BAR);
    let head = s.subrange(0, first_bar(s));
    assert forall|k: int| 0 <= k < head.len() implies #[trigger] head[k] != BAR by {
        assert(head[k] == s[k]);
    }
}

/// A position with no bar before it that holds a bar, or is the end, is where
/// the first bar stands.
pub proof fn lemma_first_bar_at(s: Seq<u8>, k: int)
    requires
        0 <= k <= s.len(),
        bar_free(s.subrange(0, k)),
        k < s.len() ==> s[k] == BAR,
    ensures
        first_bar(s) == k,
{
    assert forall|j: int| 0 <= j < k implies #[trigger] s[j] != BAR by {
        assert(s[j] == s.subrange(0, k)[j]);
    }
    lemma_first_index_at(s, |b: u8| b == BAR, k);
}

/// There is always at least one field.
pub proof fn lemma_fields_nonempty(s: Seq<u8>)
    ensures
        fields(s).len() >= 1,
    decreases s.len(),
{
    let i = first_bar(s);
    if 0 <= i < s.len() {
        lemma_fields_nonempty(s.subrange(i + 1, s.len() as int));
    }
}

/// A sequence without a bar is a single field.
pub proof fn lemma_fields_one(s: Seq<u8>)
    requires
        bar_free(s),
    ensures
        fields(s) == seq![s],
{
    assert(s.subrange(0, s.len() as int) =~= s);
    lemma_first_bar_at(s, s.len() as int);
}

/// A field without a bar, a bar and a rest are the field followed by the
/// fields of the rest.
pub proof fn lemma_fields_cons(head: Seq<u8>, rest: Seq<u8>)
    requires
        bar_free(head),
    ensures
        fields(head + seq![BAR] + rest) == seq![head] + fields(rest),
{
    let s = head + seq![BAR] + rest;
    let k = head.len() as int;
    assert(s.subrange(0, k) =~= head);
    assert(s[k] == BAR);
    lemma_first_bar_at(s, k);
    assert(s.subrange(k + 1, s.len() as int) =~= rest);
}

/// Finds the first bar at or after `from`.
pub fn find_bar(frame: &[u8], from: usize) -> (k: usize)
    requires
        from <= frame@.len(),
    ensures
        from <= k <= frame@.len(),
        k - from == first_bar(frame@.subrange(from as int, frame@.len() as int)),
{
    let n: usize = frame.len();
    let mut k: usize = from;
    while k < n && frame[k] != BAR
        invariant
            from <= k <= n,
            n == frame@.len(),
            bar_free(frame@.subrange(from as int, k as int)),
        decreases n - k,
    {
        let ghost before = frame@.subrange(from as int, k as int);
        let ghost after = frame@.subrange(from as int, k + 1);
        assert forall|j: int| 0 <= j < after.len() implies #[trigger] after[j] != BAR by {
            if j < before.len() {
                assert(after[j] == before[j]);
            }
        }
        k += 1;
    }
    proof {
        let tail = frame@.subrange(from as int, n as int);
        assert(tail.subrange(0, k - from) =~= frame@.subrange(from as int, k as int));
        lemma_first_bar_at(tail, k - from);
    }
    k
}

/// In well-formed UTF-8, what follows an ASCII byte starts a character: the
/// rest is well-formed UTF-8 of its own.
pub proof fn lemma_boundary_after_ascii(bytes: Seq<u8>, j: int)
    requires
        valid_utf8(bytes),
        0 <= j < bytes.len(),
        bytes[j] < 0x80,
    ensures
        is_char_boundary(bytes, j + 1),
        valid_utf8(bytes.subrange(j + 1, bytes.len() as int)),
{
    let n = bytes.len() as int;
    let from_j = bytes.subrange(j, n);
    let tail = bytes.subrange(j + 1, n);
    assert(is_char_boundary(bytes, j)) by {
        is_char_boundary_iff_not_is_continuation_byte(bytes, j);
    }
    assert(valid_utf8(from_j)) by {
        valid_utf8_split(bytes, j);
    }
    assert(from_j[0] == bytes[j]);
    assert(is_leading_byte_width_1(from_j[0]));
    assert(pop_first_scalar(from_j) =~= tail);
    assert(valid_utf8(tail));
    if j + 1 == n {
        is_char_boundary_start_end_of_seq(bytes);
    } else {
        assert(tail[0] == bytes[j + 1]);
        assert(valid_first_scalar(tail));
        assert(!is_continuation_byte(tail[0]));
        is_char_boundary_iff_not_is_continuation_byte(bytes, j + 1);
    }
}


/// The UTF-8 encoding of one character other than `|` holds no bar.
pub proof fn lemma_encode_scalar_bar_free(c: char)
    requires
        c != '|',
    ensures
        bar_free(encode_scalar(c as u32)),
{
    let v = c as u32;
    let e = encode_scalar(v);
    char_is_scalar(c);
    assert(v != 0x7c);
    assert(v <= 0x7f ==> (v & 0x7f) as u8 != 0x7c) by (bit_vector)
        requires
            v != 0x7c,
    ;
    assert(forall|x: u8| (0xc0u8 | x) != 0x7c) by (bit_vector);
    assert(forall|x: u8| (0xe0u8 | x) != 0x7c) by (bit_vector);
    assert(forall|x: u8| (0xf0u8 | x) != 0x7c) by (bit_vector);
    assert(forall|x: u8| (0x80u8 | x) != 0x7c) by (bit_vector);
    assert forall|k: int| 0 <= k < e.len() implies #[trigger] e[k] != BAR by {}
}

/// The UTF-8 encoding of a text without `|` holds no bar.
pub proof fn lemma_encode_utf8_bar_free(chars: Seq<char>)
    requires
        !chars.contains('|'),
    ensures
        bar_free(encode_utf8(chars)),
    decreases chars.len(),
{
    if chars.len() > 0 {
        let head = encode_scalar(chars[0] as u32);
        let rest = chars.drop_first();
        assert(chars.contains(chars[0]));
        lemma_encode_scalar_bar_free(chars[0]);
        assert forall|k: int| 0 <= k < rest.len() implies #[trigger] rest[k] != '|' by {
            assert(chars.contains(chars[k + 1]));
        }
        assert(!rest.contains('|'));
        lemma_encode_utf8_bar_free(rest);
        let tail = encode_utf8(rest);
        let whole = encode_utf8(chars);
        assert forall|k: int| 0 <= k < whole.len() implies #[trigger] whole[k] != BAR by {
            if k < head.len() {
                assert(whole[k] == head[k]);
            } else {
                assert(whole[k] == tail[k - head.len()]);
            }
        }
    }
}

/// An issue whose text holds no `|` reads back from its own frame.
pub proof fn lemma_decode_encode(v: IssueView)
    requires
        !v.content.contains('|'),
    ensures
        decode_spec(encode_spec(v)) == Ok::<IssueView, DecodeError>(v),
{
    let letter = seq![v.kind.letter_spec()];
    let digits = decimal_digits(v.id as nat);
    let text = encode_utf8(v.content);
    let frame = encode_spec(v);
    let tail = digits + seq![BAR] + text;
    lemma_decimal_digits_shape(v.id as nat);
    lemma_parse_decimal_digits(v.id);
    lemma_encode_utf8_bar_free(v.content);
    encode_utf8_valid_utf8(v.content);
    encode_utf8_decode_utf8(v.content);
    assert(bar_free(digits)) by {
        assert forall|k: int| 0 <= k < digits.len() implies #[trigger] digits[k] != BAR by {
            assert(is_digit(digits[k]));
        }
    }
    assert(bar_free(letter));
    assert(frame =~= letter + seq![BAR] + tail);
    lemma_fields_cons(letter, tail);
    lemma_fields_cons(digits, text);
    lemma_fields_one(text);
    assert(fields(frame) =~= seq![letter, digits, text]);
    let head = seq![v.kind.letter_spec(), BAR] + digits + seq![BAR];
    assert(valid_utf8(head)) by {
        assert forall|k: int| 0 <= k < head.len() implies #[trigger] head[k] < 0x80 by {
            if 2 <= k < 2 + digits.len() {
                assert(head[k] == digits[k - 2]);
                assert(is_digit(digits[k - 2]));
            }
        }
        lemma_ascii_valid_utf8(head);
    }
    assert(frame =~= head + text);
    valid_utf8_concat(head, text);
}

impl Issue {
    /// Reads an issue from a frame.
    pub fn decode(frame: &[u8]) -> (r: Result<Issue, DecodeError>)
        ensures
            r matches Ok(issue) ==> decode_spec(frame@) == Ok::<IssueView, DecodeError>(issue@),
            r matches Err(e) ==> decode_spec(frame@) == Err::<IssueView, DecodeError>(e),
    {
        let n: usize = frame.len();
        let text = match string_from_utf8(slice_to_vec(frame)) {
            Some(text) => text,
            None => {
                return Err(DecodeError::InvalidUtf8);
            },
        };
        let i: usize = find_bar(frame, 0);
        proof {
            assert(frame@.subrange(0, n as int) =~= frame@);
            lemma_first_bar(frame@);
        }
        if i == n {
            return Err(DecodeError::Framing);
        }
        let ghost rest = frame@.subrange(i + 1, n as int);
        let j: usize = find_bar(frame, i + 1);
        proof {
            lemma_first_bar(rest);
        }
        if j == n {
            assert(fields(rest) == seq![rest]);
            return Err(DecodeError::Framing);
        }
        let ghost last = frame@.subrange(j + 1, n as int);
        assert(rest.subrange(j - i, rest.len() as int) =~= last);
        assert(rest.subrange(0, j - i - 1) =~= frame@.subrange(i + 1, j as int));
        let k: usize = find_bar(frame, j + 1);
        proof {
            lemma_first_bar(last);
        }
        assert(fields(rest) =~= seq![frame@.subrange(i + 1, j as int)] + fields(last));
        assert(fields(frame@) =~= seq![frame@.subrange(0, i as int)] + fields(rest));
        if k < n {
            proof {
                lemma_fields_nonempty(last.subrange(k - j, last.len() as int));
            }
            return Err(DecodeError::Framing);
        }
        assert(fields(last) == seq![last]);
        assert(fields(frame@) =~= seq![
            frame@.subrange(0, i as int),
            frame@.subrange(i + 1, j as int),
            last,
        ]);
        let kind = match IssueType::from_field(slice_subrange(frame, 0, i)) {
            Some(kind) => kind,
            None => {
                return Err(DecodeError::UnknownKind);
            },
        };
        let id: u64 = match parse_u64(slice_subrange(frame, i + 1, j)) {
            Some(id) => id,
            None => {
                return Err(DecodeError::InvalidId);
            },
        };
        proof {
            lemma_boundary_after_ascii(frame@, j as int);
        }
        let (_, tail) = text.as_str().split_at(j + 1);
        let content = tail.to_owned();
        proof {
            encode_utf8_decode_utf8(content@);
        }
        Ok(Issue { content, id, issue_type: kind })
    }

    /// Whether the issue's frame fits into one datagram.
    pub fn fits_datagram(&self) -> (r: bool)
        ensures
            r == (encode_spec(self@).len() <= DATAGRAM_SIZE),
    {
        self.encode().len() <= DATAGRAM_SIZE
    }

    /// Writes the issue as a frame.
    pub fn encode(&self) -> (frame: Vec<u8>)
        ensures
            frame@ == encode_spec(self@),
    {
        let mut frame: Vec<u8> = Vec::new();
        frame.push(self.issue_type.letter());
        frame.push(BAR);
        push_decimal(self.id, &mut frame);
        frame.push(BAR);
        frame.extend_from_slice(self.content.as_str().as_bytes());
        frame
    }
}


impl TryFrom<Bytes> for Issue {
    type Error = DecodeError;

    /// Reads an issue from a datagram's payload.
    fn try_from(value: Bytes) -> (r: Result<Issue, DecodeError>)
        ensures
            r matches Ok(issue) ==> decode_spec(octets(value)) == Ok::<IssueView, DecodeError>(
                issue@,
            ),
            r matches Err(e) ==> decode_spec(octets(value)) == Err::<IssueView, DecodeError>(e),
    {
        let frame: &[u8] = &value;
        Issue::decode(frame)
    }
}

/// What the conversion returns is stated over views, in its own contract;
/// no value is named for it here.
impl vstd::std_specs::convert::TryFromSpecImpl<Bytes> for Issue {
    open spec fn obeys_try_from_spec() -> bool {
        false
    }

    open spec fn try_from_spec(v: Bytes) -> Result<Self, Self::Error> {
        arbitrary()
    }
}

impl From<Issue> for Bytes {
    /// Writes an issue as a datagram's payload.
    fn from(issue: Issue) -> (b: Bytes)
        ensures
            octets(b) == encode_spec(issue@),
    {
        Bytes::from(issue.encode())
    }
}

/// What the conversion returns is stated over views, in its own contract;
/// no value is named for it here.
impl vstd::std_specs::convert::FromSpecImpl<Issue> for Bytes {
    open spec fn obeys_from_spec() -> bool {
        false
    }

    open spec fn from_spec(v: Issue) -> Bytes {
        arbitrary()
    }
}

} // verus!
