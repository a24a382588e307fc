//! The record, the messages, and their byte layout.
//!
//! Every payload is JSON. An encoder writes the compact form: no whitespace,
//! keys in double quotes, the counter as a decimal number without a leading
//! zero or a plus sign. A decoder accepts that form, with or without
//! whitespace between its tokens, and nothing else.

use crate::error::ContractError;
use crate::spacing::{compact, compact_bytes, is_space, lemma_compact_of_solid, solid};
use vstd::prelude::*;
use vstd::slice::slice_subrange;

verus! {

/// The persisted record.
#[derive(Clone, Copy, Debug, PartialEq, Eq, Structural)]
pub struct State {
    pub count: i8,
}

/// The first value of the counter.
#[derive(Clone, Copy, Debug, PartialEq, Eq, Structural)]
pub struct InstantiateMsg {
    pub count: i8,
}

/// The operations that change the record.
#[derive(Clone, Copy, Debug, PartialEq, Eq, Structural)]
pub enum ExecuteMsg {
    /// Advance the counter by one. On the wire its tag is `increment`.
    Increment {  },
}

/// The operations that read the record.
#[derive(Clone, Copy, Debug, PartialEq, Eq, Structural)]
pub enum QueryMsg {
    /// Ask for the counter's value. On the wire its tag is `get_count`.
    GetNum {  },
}

/// The answer to `QueryMsg::GetNum`.
#[derive(Clone, Copy, Debug, PartialEq, Eq, Structural)]
pub struct GetNumResponse {
    pub count: i8,
}

/// The ASCII digit for `d`, where `0 <= d <= 9`.
pub open spec fn digit(d: int) -> u8 {
    ('0' as u8 + d) as u8
}

/// The decimal text of `n`, where `0 <= n <= 999`: one to three digits, no leading zero.
pub open spec fn magnitude_text(n: int) -> Seq<u8> {
    if n < 10 {
        seq![digit(n)]
    } else if n < 100 {
        seq![digit(n / 10), digit(n % 10)]
    } else {
        seq![digit(n / 100), digit((n / 10) % 10), digit(n % 10)]
    }
}

/// The decimal text of `v`: a minus sign for a negative value, then its magnitude.
pub open spec fn int_text(v: i8) -> Seq<u8> {
    if v < 0 {
        seq!['-' as u8] + magnitude_text(-v)
    } else {
        magnitude_text(v as int)
    }
}

/// The number that `s` is the decimal text of, if it is one.
pub open spec fn text_int(s: Seq<u8>) -> Option<i8> {
    if exists|v: i8| int_text(v) == s {
        Some(choose|v: i8| int_text(v) == s)
    } else {
        None
    }
}

/// The bytes `{"count":`.
pub open spec fn count_open() -> Seq<u8> {
    seq![
        '{' as u8, '"' as u8, 'c' as u8, 'o' as u8, 'u' as u8, 'n' as u8, 't' as u8, '"' as u8,
        ':' as u8,
    ]
}

/// The byte `}`.
pub open spec fn brace_close() -> u8 {
    '}' as u8
}

/// The payload `{"count":N}` for the counter value `c`.
pub open spec fn count_record(c: i8) -> Seq<u8> {
    count_open() + int_text(c) + seq![brace_close()]
}

/// The counter value that `s` is the `{"count":N}` payload of, if it is one.
pub open spec fn record_count(s: Seq<u8>) -> Option<i8> {
    if exists|c: i8| count_record(c) == s {
        Some(choose|c: i8| count_record(c) == s)
    } else {
        None
    }
}

/// The payload `{"increment":{}}`.
pub open spec fn increment_wire() -> Seq<u8> {
    seq![
        '{' as u8, '"' as u8, 'i' as u8, 'n' as u8, 'c' as u8, 'r' as u8, 'e' as u8, 'm' as u8,
        'e' as u8, 'n' as u8, 't' as u8, '"' as u8, ':' as u8, '{' as u8, '}' as u8, '}' as u8,
    ]
}

/// The payload `{"get_count":{}}`.
pub open spec fn get_count_wire() -> Seq<u8> {
    seq![
        '{' as u8, '"' as u8, 'g' as u8, 'e' as u8, 't' as u8, '_' as u8, 'c' as u8, 'o' as u8,
        'u' as u8, 'n' as u8, 't' as u8, '"' as u8, ':' as u8, '{' as u8, '}' as u8, '}' as u8,
    ]
}

/// The sign and the magnitude can be read off the decimal text of a value.
pub proof fn lemma_int_text_shape(v: i8)
    ensures
        v >= 0 ==> int_text(v) == magnitude_text(v as int) && int_text(v)[0] != 45,
        v < 0 ==> int_text(v)[0] == 45 && int_text(v).len() == magnitude_text(-v).len() + 1
            && int_text(v).subrange(1, int_text(v).len() as int) == magnitude_text(-v),
        1 <= int_text(v).len() <= 4,
{
    if v < 0 {
        let s = int_text(v);
        lemma_magnitude_text_value(-v);
        assert(s.subrange(1, s.len() as int) =~= magnitude_text(-v));
    } else {
        lemma_magnitude_text_value(v as int);
    }
}

/// The digits of a magnitude, taken as numbers, add up to it again.
pub proof fn lemma_magnitude_text_value(n: int)
    requires
        0 <= n <= 999,
    ensures
        n < 10 ==> magnitude_text(n).len() == 1 && n == magnitude_text(n)[0] - 48,
        10 <= n < 100 ==> magnitude_text(n).len() == 2 && n == (magnitude_text(n)[0] - 48) * 10 + (
        magnitude_text(n)[1] - 48) && magnitude_text(n)[0] != 48,
        100 <= n ==> magnitude_text(n).len() == 3 && n == (magnitude_text(n)[0] - 48) * 100 + (
        magnitude_text(n)[1] - 48) * 10 + (magnitude_text(n)[2] - 48) && magnitude_text(n)[0]
            != 48,
        forall|i: int| 0 <= i < magnitude_text(n).len() ==> 48 <= #[trigger] magnitude_text(n)[i] <= 57,
{
    let t = magnitude_text(n);
    if n < 10 {
        assert(t[0] == 48 + n);
    } else if n < 100 {
        assert(t[0] == 48 + n / 10);
        assert(t[1] == 48 + n % 10);
    } else {
        assert(t[0] == 48 + n / 100);
        assert(t[1] == 48 + (n / 10) % 10);
        assert(t[2] == 48 + n % 10);
    }
}

/// Two magnitudes with the same decimal text are the same number.
pub proof fn lemma_magnitude_text_injective(a: int, b: int)
    requires
        0 <= a <= 999,
        0 <= b <= 999,
        magnitude_text(a) == magnitude_text(b),
    ensures
        a == b,
{
    lemma_magnitude_text_value(a);
    lemma_magnitude_text_value(b);
}

/// Two values with the same decimal text are the same value.
pub proof fn lemma_int_text_injective(a: i8, b: i8)
    requires
        int_text(a) == int_text(b),
    ensures
        a == b,
{
    lemma_int_text_shape(a);
    lemma_int_text_shape(b);
    if a < 0 {
        lemma_magnitude_text_injective(-a, -b);
    } else {
        lemma_magnitude_text_injective(a as int, b as int);
    }
}

/// A `{"count":N}` payload is the opening bytes, the decimal text of `N`, and a closing brace.
pub proof fn lemma_count_record_parts(c: i8)
    ensures
        count_record(c).len() == 10 + int_text(c).len(),
        count_record(c).subrange(0, 9) == count_open(),
        count_record(c).subrange(9, count_record(c).len() - 1) == int_text(c),
        count_record(c)[count_record(c).len() - 1] == brace_close(),
{
    let r = count_record(c);
    assert(r.subrange(0, 9) =~= count_open());
    assert(r.subrange(9, r.len() - 1) =~= int_text(c));
}

/// Two counter values with the same payload are the same value.
pub proof fn lemma_count_record_injective(a: i8, b: i8)
    requires
        count_record(a) == count_record(b),
    ensures
        a == b,
{
    lemma_count_record_parts(a);
    lemma_count_record_parts(b);
    lemma_int_text_shape(a);
    lemma_int_text_shape(b);
    lemma_int_text_injective(a, b);
}

/// No byte of a `{"count":N}` payload is whitespace.
pub proof fn lemma_count_record_solid(c: i8)
    ensures
        solid(count_record(c)),
        compact(count_record(c)) == count_record(c),
{
    let r = count_record(c);
    let t = int_text(c);
    lemma_int_text_shape(c);
    assert forall|i: int| 0 <= i < r.len() implies !is_space(#[trigger] r[i]) by {
        if i < 9 {
            assert(r[i] == count_open()[i]);
        } else if i < 9 + t.len() {
            assert(r[i] == t[i - 9]);
            if c < 0 {
                lemma_magnitude_text_value(-c);
                if i > 9 {
                    assert(t[i - 9] == t.subrange(1, t.len() as int)[i - 10]);
                    assert(t[i - 9] == magnitude_text(-c)[i - 10]);
                }
            } else {
                lemma_magnitude_text_value(c as int);
            }
        } else {
            assert(r[i] == brace_close());
        }
    }
    lemma_compact_of_solid(r);
}

/// No byte of an operation's payload is whitespace.
pub proof fn lemma_operation_wires_solid()
    ensures
        solid(increment_wire()),
        solid(get_count_wire()),
        compact(increment_wire()) == increment_wire(),
        compact(get_count_wire()) == get_count_wire(),
{
    lemma_compact_of_solid(increment_wire());
    lemma_compact_of_solid(get_count_wire());
}

/// Whether two slices hold the same bytes.
fn same_bytes(a: &[u8], b: &[u8]) -> (r: bool)
    ensures
        r == (a@ == b@),
{
    if a.len() != b.len() {
        return false;
    }
    let mut i: usize = 0;
    while i < a.len()
        invariant
            a.len() == b.len(),
            i <= a.len(),
            forall|j: int| 0 <= j < i ==> a@[j] == b@[j],
        decreases a.len() - i,
    {
        if a[i] != b[i] {
            return false;
        }
        i += 1;
    }
    proof {
        assert(a@ =~= b@);
    }
    true
}

/// The value of the ASCII digit `b`, if it is one.
fn digit_value(b: u8) -> (r: Option<u8>)
    ensures
        r == if '0' as u8 <= b <= '9' as u8 { Some((b - '0' as u8) as u8) } else { None::<u8> },
{
    if '0' as u8 <= b && b <= '9' as u8 {
        Some(b - '0' as u8)
    } else {
        None
    }
}

/// Appends the decimal text of `v` to `out`.
fn push_int(out: &mut Vec<u8>, v: i8)
    ensures
        final(out)@ == old(out)@ + int_text(v),
{
    let m: u8 = if v < 0 {
        out.push('-' as u8);
        (-(v as i16)) as u8
    } else {
        v as u8
    };
    if m < 10 {
        out.push('0' as u8 + m);
    } else if m < 100 {
        out.push('0' as u8 + m / 10);
        out.push('0' as u8 + m % 10);
    } else {
        out.push('0' as u8 + m / 100);
        out.push('0' as u8 + (m / 10) % 10);
        out.push('0' as u8 + m % 10);
    }
    proof {
        assert(out@ =~= old(out)@ + int_text(v));
    }
}

/// Reads an optional minus sign and up to three digits. Every decimal text of a
/// value is read as that value; other inputs give any value or none.
fn read_int(text: &[u8]) -> (r: Option<i8>)
    ensures
        forall|w: i8| int_text(w) == text@ ==> r == Some(w),
{
    let n: usize = text.len();
    let mut r: Option<i8> = None;
    if 1 <= n && n <= 4 {
        let negative: bool = text[0] == '-' as u8;
        let first: usize = if negative { 1 } else { 0 };
        let digits: usize = n - first;
        if 1 <= digits && digits <= 3 {
            let d0: Option<u8> = digit_value(text[first]);
            let d1: Option<u8> = if digits >= 2 {
                digit_value(text[first + 1])
            } else {
                Some(0)
            };
            let d2: Option<u8> = if digits >= 3 {
                digit_value(text[first + 2])
            } else {
                Some(0)
            };
            let m: Option<u16> = match (d0, d1, d2) {
                (Some(a), Some(b), Some(c)) => {
                    let (a, b, c): (u16, u16, u16) = (a as u16, b as u16, c as u16);
                    if digits == 1 {
                        Some(a)
                    } else if digits == 2 {
                        Some(a * 10 + b)
                    } else {
                        Some(a * 100 + b * 10 + c)
                    }
                },
                _ => None,
            };
            if let Some(x) = m {
                if negative && x <= 128 {
                    r = Some((-(x as i16)) as i8);
                } else if !negative && x <= 127 {
                    r = Some(x as i8);
                }
            }
        }
    }
    proof {
        assert forall|w: i8| int_text(w) == text@ implies r == Some(w) by {
            lemma_int_text_shape(w);
            let mag: int = if w < 0 { -w } else { w as int };
            let t = magnitude_text(mag);
            let f: int = if w < 0 { 1 } else { 0 };
            assert(forall|j: int| 0 <= j < t.len() ==> t[j] == text@[j + f]) by {
                if w < 0 {
                    assert(forall|j: int|
                        0 <= j < t.len() ==> t[j] == text@.subrange(1, text@.len() as int)[j]);
                }
            }
            lemma_magnitude_text_value(mag);
            assert(t[0] == text@[f]);
            if t.len() >= 2 {
                assert(t[1] == text@[1 + f]);
            }
            if t.len() >= 3 {
                assert(t[2] == text@[2 + f]);
            }
        }
    }
    r
}

/// The number that `text` is the decimal text of, if it is one.
fn parse_int(text: &[u8]) -> (r: Option<i8>)
    ensures
        r == text_int(text@),
{
    match read_int(text) {
        Some(v) => {
            let mut again: Vec<u8> = Vec::new();
            push_int(&mut again, v);
            if same_bytes(again.as_slice(), text) {
                proof {
                    assert(again@ =~= int_text(v));
                    assert forall|w: i8| int_text(w) == text@ implies w == v by {
                        lemma_int_text_injective(w, v);
                    }
                }
                Some(v)
            } else {
                proof {
                    assert(again@ =~= int_text(v));
                }
                None
            }
        },
        None => None,
    }
}

/// The bytes `{"count":`.
fn count_open_bytes() -> (out: Vec<u8>)
    ensures
        out@ == count_open(),
{
    let out: Vec<u8> = vec![
        '{' as u8, '"' as u8, 'c' as u8, 'o' as u8, 'u' as u8, 'n' as u8, 't' as u8, '"' as u8,
        ':' as u8,
    ];
    proof {
        assert(out@ =~= count_open());
    }
    out
}

/// Writes the payload `{"count":N}` for the counter value `c`.
pub fn encode_count_record(c: i8) -> (out: Vec<u8>)
    ensures
        out@ == count_record(c),
{
    let mut out: Vec<u8> = count_open_bytes();
    push_int(&mut out, c);
    out.push('}' as u8);
    proof {
        assert(out@ =~= count_record(c));
    }
    out
}

/// Reads the payload `{"count":N}`, and gives `N` where `bytes` is exactly such a payload.
pub fn decode_count_record(bytes: &[u8]) -> (r: Option<i8>)
    ensures
        r == record_count(bytes@),
{
    let n: usize = bytes.len();
    let mut r: Option<i8> = None;
    if n >= 11 && bytes[n - 1] == '}' as u8 {
        let head: Vec<u8> = count_open_bytes();
        if same_bytes(slice_subrange(bytes, 0, 9), head.as_slice()) {
            r = parse_int(slice_subrange(bytes, 9, n - 1));
        }
    }
    proof {
        assert forall|c: i8| count_record(c) == bytes@ implies r == Some(c) by {
            lemma_count_record_parts(c);
            lemma_int_text_shape(c);
            assert forall|w: i8| int_text(w) == int_text(c) implies w == c by {
                lemma_int_text_injective(w, c);
            }
        }
        if let Some(c) = r {
            let mid = bytes@.subrange(9, n - 1);
            assert(int_text(c) == mid);
            assert(count_record(c) =~= bytes@);
        }
    }
    r
}

/// The payload `{"increment":{}}`.
fn increment_wire_bytes() -> (out: Vec<u8>)
    ensures
        out@ == increment_wire(),
{
    let out: Vec<u8> = vec![
        '{' as u8, '"' as u8, 'i' as u8, 'n' as u8, 'c' as u8, 'r' as u8, 'e' as u8, 'm' as u8,
        'e' as u8, 'n' as u8, 't' as u8, '"' as u8, ':' as u8, '{' as u8, '}' as u8, '}' as u8,
    ];
    proof {
        assert(out@ =~= increment_wire());
    }
    out
}

/// The payload `{"get_count":{}}`.
fn get_count_wire_bytes() -> (out: Vec<u8>)
    ensures
        out@ == get_count_wire(),
{
    let out: Vec<u8> = vec![
        '{' as u8, '"' as u8, 'g' as u8, 'e' as u8, 't' as u8, '_' as u8, 'c' as u8, 'o' as u8,
        'u' as u8, 'n' as u8, 't' as u8, '"' as u8, ':' as u8, '{' as u8, '}' as u8, '}' as u8,
    ];
    proof {
        assert(out@ =~= get_count_wire());
    }
    out
}

impl State {
    /// The bytes that stand for this value.
    pub open spec fn wire(self) -> Seq<u8> {
        count_record(self.count)
    }

    /// What a decoder makes of `s`.
    pub open spec fn parse(s: Seq<u8>) -> Result<State, ContractError> {
        match record_count(compact(s)) {
            Some(c) => Ok(State { count: c }),
            None => Err(ContractError::Decode),
        }
    }

    /// Writes the record as `{"count":N}`.
    pub fn encode(&self) -> (out: Vec<u8>)
        ensures
            out@ == self.wire(),
    {
        encode_count_record(self.count)
    }

    /// Reads the record from `bytes`, and fails with `Decode` unless they are a
    /// `{"count":N}` payload, spaced or not, with `N` in the counter's range.
    pub fn decode(bytes: &[u8]) -> (r: Result<State, ContractError>)
        ensures
            r == State::parse(bytes@),
    {
        let tight: Vec<u8> = compact_bytes(bytes);
        match decode_count_record(tight.as_slice()) {
            Some(c) => Ok(State { count: c }),
            None => Err(ContractError::Decode),
        }
    }
}

impl InstantiateMsg {
    /// The bytes that stand for this value.
    pub open spec fn wire(self) -> Seq<u8> {
        count_record(self.count)
    }

    /// What a decoder makes of `s`.
    pub open spec fn parse(s: Seq<u8>) -> Result<InstantiateMsg, ContractError> {
        match record_count(compact(s)) {
            Some(c) => Ok(InstantiateMsg { count: c }),
            None => Err(ContractError::Decode),
        }
    }

    /// Writes the message as `{"count":N}`.
    pub fn encode(&self) -> (out: Vec<u8>)
        ensures
            out@ == self.wire(),
    {
        encode_count_record(self.count)
    }

    /// Reads the message from `bytes`, and fails with `Decode` unless they are a
    /// `{"count":N}` payload, spaced or not, with `N` in the counter's range.
    pub fn decode(bytes: &[u8]) -> (r: Result<InstantiateMsg, ContractError>)
        ensures
            r == InstantiateMsg::parse(bytes@),
    {
        let tight: Vec<u8> = compact_bytes(bytes);
        match decode_count_record(tight.as_slice()) {
            Some(c) => Ok(InstantiateMsg { count: c }),
            None => Err(ContractError::Decode),
        }
    }
}

impl GetNumResponse {
    /// The bytes that stand for this value.
    pub open spec fn wire(self) -> Seq<u8> {
        count_record(self.count)
    }

    /// What a decoder makes of `s`.
    pub open spec fn parse(s: Seq<u8>) -> Result<GetNumResponse, ContractError> {
        match record_count(compact(s)) {
            Some(c) => Ok(GetNumResponse { count: c }),
            None => Err(ContractError::Decode),
        }
    }

    /// Writes the answer as `{"count":N}`.
    pub fn encode(&self) -> (out: Vec<u8>)
        ensures
            out@ == self.wire(),
    {
        encode_count_record(self.count)
    }

    /// Reads the answer from `bytes`, and fails with `Decode` unless they are a
    /// `{"count":N}` payload, spaced or not, with `N` in the counter's range.
    pub fn decode(bytes: &[u8]) -> (r: Result<GetNumResponse, ContractError>)
        ensures
            r == GetNumResponse::parse(bytes@),
    {
        let tight: Vec<u8> = compact_bytes(bytes);
        match decode_count_record(tight.as_slice()) {
            Some(c) => Ok(GetNumResponse { count: c }),
            None => Err(ContractError::Decode),
        }
    }
}

impl ExecuteMsg {
    /// The bytes that stand for this value.
    pub open spec fn wire(self) -> Seq<u8> {
        match self {
            ExecuteMsg::Increment {  } => increment_wire(),
        }
    }

    /// What a decoder makes of `s`.
    pub open spec fn parse(s: Seq<u8>) -> Result<ExecuteMsg, ContractError> {
        if compact(s) == increment_wire() {
            Ok(ExecuteMsg::Increment {  })
        } else {
            Err(ContractError::Decode)
        }
    }

    /// Writes the operation as an object with its tag as the only key.
    pub fn encode(&self) -> (out: Vec<u8>)
        ensures
            out@ == self.wire(),
    {
        match self {
            ExecuteMsg::Increment {  } => increment_wire_bytes(),
        }
    }

    /// Reads an operation from `bytes`, and fails with `Decode` on any payload
    /// other than a spaced or compact `{"increment":{}}`: an unknown tag is no operation.
    pub fn decode(bytes: &[u8]) -> (r: Result<ExecuteMsg, ContractError>)
        ensures
            r == ExecuteMsg::parse(bytes@),
    {
        let known: Vec<u8> = increment_wire_bytes();
        let tight: Vec<u8> = compact_bytes(bytes);
        if same_bytes(tight.as_slice(), known.as_slice()) {
            Ok(ExecuteMsg::Increment {  })
        } else {
            Err(ContractError::Decode)
        }
    }
}

impl QueryMsg {
    /// The bytes that stand for this value.
    pub open spec fn wire(self) -> Seq<u8> {
        match self {
            QueryMsg::GetNum {  } => get_count_wire(),
        }
    }

    /// What a decoder makes of `s`.
    pub open spec fn parse(s: Seq<u8>) -> Result<QueryMsg, ContractError> {
        if compact(s) == get_count_wire() {
            Ok(QueryMsg::GetNum {  })
        } else {
            Err(ContractError::Decode)
        }
    }

    /// Writes the operation as an object with its tag as the only key.
    pub fn encode(&self) -> (out: Vec<u8>)
        ensures
            out@ == self.wire(),
    {
        match self {
            QueryMsg::GetNum {  } => get_count_wire_bytes(),
        }
    }

    /// Reads an operation from `bytes`, and fails with `Decode` on any payload
    /// other than a spaced or compact `{"get_count":{}}`: an unknown tag is no operation.
    pub fn decode(bytes: &[u8]) -> (r: Result<QueryMsg, ContractError>)
        ensures
            r == QueryMsg::parse(bytes@),
    {
        let known: Vec<u8> = get_count_wire_bytes();
        let tight: Vec<u8> = compact_bytes(bytes);
        if same_bytes(tight.as_slice(), known.as_slice()) {
            Ok(QueryMsg::GetNum {  })
        } else {
            Err(ContractError::Decode)
        }
    }
}

} // verus!
