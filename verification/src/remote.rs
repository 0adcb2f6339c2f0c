//! The remote table boundary: the request paths, request bodies and
//! response interpretation for a table service spoken to over some
//! transport.
//!
//! The transport itself is outside this crate; callers perform the exchange
//! and hand the response's success flag and body back to the functions here.

use vstd::prelude::*;
use vstd::string::{StrSliceExecFns, StringExecFns};

use crate::error::{Error, ErrorModel};
use crate::schema::Schema;

verus! {

/// Table statistics reported by the service.
#[derive(Debug, Clone, Copy, PartialEq, Eq, Structural)]
pub struct TableStats {
    pub num_deleted_rows: usize,
    pub num_fragments: usize,
}

/// Mathematical model of a [`GetTableInfoResponse`].
pub struct GetTableInfoResponseModel {
    pub table: Seq<char>,
    pub version: u64,
    pub schema: Seq<crate::schema::FieldModel>,
    pub stats: TableStats,
}

/// What the service reports about a table: its name, version, schema and
/// statistics.
#[derive(Debug, PartialEq, Eq)]
pub struct GetTableInfoResponse {
    pub table: String,
    pub version: u64,
    pub schema: Schema,
    pub stats: TableStats,
}

impl View for GetTableInfoResponse {
    type V = GetTableInfoResponseModel;

    open spec fn view(&self) -> GetTableInfoResponseModel {
        GetTableInfoResponseModel {
            table: self.table@,
            version: self.version,
            schema: self.schema@,
            stats: self.stats,
        }
    }
}

/// The hexadecimal digit denoting a value below sixteen.
pub open spec fn spec_hex_digit(n: u32) -> char {
    if n == 0 {
        '0'
    } else if n == 1 {
        '1'
    } else if n == 2 {
        '2'
    } else if n == 3 {
        '3'
    } else if n == 4 {
        '4'
    } else if n == 5 {
        '5'
    } else if n == 6 {
        '6'
    } else if n == 7 {
        '7'
    } else if n == 8 {
        '8'
    } else if n == 9 {
        '9'
    } else if n == 10 {
        'a'
    } else if n == 11 {
        'b'
    } else if n == 12 {
        'c'
    } else if n == 13 {
        'd'
    } else if n == 14 {
        'e'
    } else {
        'f'
    }
}

/// One escaped character of a JSON string body: quote, backslash and the
/// named control characters get their short escapes, every other control
/// character below U+0020 its `\u00XX` form, and all else passes through.
pub open spec fn spec_json_escaped_char(c: char) -> Seq<char> {
    if c == '"' {
        seq!['\\', '"']
    } else if c == '\\' {
        seq!['\\', '\\']
    } else if c == '\n' {
        seq!['\\', 'n']
    } else if c == '\t' {
        seq!['\\', 't']
    } else if c == '\r' {
        seq!['\\', 'r']
    } else if c == '\u{8}' {
        seq!['\\', 'b']
    } else if c == '\u{c}' {
        seq!['\\', 'f']
    } else if (c as u32) < 32 {
        seq![
            '\\',
            'u',
            '0',
            '0',
            spec_hex_digit((c as u32) / 16),
            spec_hex_digit((c as u32) % 16),
        ]
    } else {
        seq![c]
    }
}

/// A string escaped for use inside a JSON string literal.
pub open spec fn spec_json_escape(s: Seq<char>) -> Seq<char>
    decreases s.len(),
{
    if s.len() == 0 {
        Seq::empty()
    } else {
        spec_json_escape(s.drop_last()) + spec_json_escaped_char(s.last())
    }
}

/// Relies on String's `FromIterator` over `char`: the collected string holds
/// exactly the characters of the vector, in order.
#[verifier::external_body]
fn string_from_chars(v: &Vec<char>) -> (r: String)
    ensures
        r@ == v@,
{
    v.iter().collect()
}

/// The hexadecimal digit denoting a value below sixteen.
fn hex_digit(n: u32) -> (r: char)
    requires
        n < 16,
    ensures
        r == spec_hex_digit(n),
{
    match n {
        0 => '0',
        1 => '1',
        2 => '2',
        3 => '3',
        4 => '4',
        5 => '5',
        6 => '6',
        7 => '7',
        8 => '8',
        9 => '9',
        10 => 'a',
        11 => 'b',
        12 => 'c',
        13 => 'd',
        14 => 'e',
        _ => 'f',
    }
}

/// Escapes a string for use inside a JSON string literal.
pub fn json_escape(s: &str) -> (r: String)
    ensures
        r@ == spec_json_escape(s@),
{
    let n = s.unicode_len();
    let mut out: Vec<char> = Vec::new();
    let mut i: usize = 0;
    while i < n
        invariant
            n == s@.len(),
            0 <= i <= n,
            out@ == spec_json_escape(s@.subrange(0, i as int)),
        decreases n - i,
    {
        let c = s.get_char(i);
        if c == '"' {
            out.push('\\');
            out.push('"');
        } else if c == '\\' {
            out.push('\\');
            out.push('\\');
        } else if c == '\n' {
            out.push('\\');
            out.push('n');
        } else if c == '\t' {
            out.push('\\');
            out.push('t');
        } else if c == '\r' {
            out.push('\\');
            out.push('r');
        } else if c == '\u{8}' {
            out.push('\\');
            out.push('b');
        } else if c == '\u{c}' {
            out.push('\\');
            out.push('f');
        } else if (c as u32) < 32 {
            out.push('\\');
            out.push('u');
            out.push('0');
            out.push('0');
            out.push(hex_digit((c as u32) / 16));
            out.push(hex_digit((c as u32) % 16));
        } else {
            out.push(c);
        }
        proof {
            let prefix = s@.subrange(0, i + 1);
            assert(prefix.drop_last() =~= s@.subrange(0, i as int));
            assert(prefix.last() == s@[i as int]);
            assert(out@ =~= spec_json_escape(prefix));
        }
        i = i + 1;
    }
    proof {
        assert(s@.subrange(0, n as int) =~= s@);
    }
    string_from_chars(&out)
}

/// The body of a row-count request: a JSON object with the optional
/// predicate, escaped, or a JSON null.
pub open spec fn spec_count_rows_request_body(filter: Option<Seq<char>>) -> Seq<char> {
    match filter {
        Some(f) => "{\"predicate\":\""@ + spec_json_escape(f) + "\"}"@,
        None => "{\"predicate\":null}"@,
    }
}

/// The value of a sequence of decimal digits.
pub open spec fn spec_decimal_value(s: Seq<char>) -> nat
    decreases s.len(),
{
    if s.len() == 0 {
        0
    } else {
        spec_decimal_value(s.drop_last()) * 10 + spec_char_digit(s.last())
    }
}

/// The digit a character denotes.
pub open spec fn spec_char_digit(c: char) -> nat {
    if 48 <= c as u32 <= 57 {
        (c as u32 - 48) as nat
    } else {
        0
    }
}

/// Whether a character is a decimal digit.
pub open spec fn spec_is_digit(c: char) -> bool {
    48 <= c as u32 <= 57
}

/// Whether a string is a plain decimal number: nonempty, digits only.
pub open spec fn spec_is_decimal(s: Seq<char>) -> bool {
    s.len() > 0 && forall|i: int| 0 <= i < s.len() ==> spec_is_digit(#[trigger] s[i])
}

/// A prefix of a digit string never exceeds the whole string's value.
pub proof fn lemma_decimal_prefix_le(s: Seq<char>, i: int)
    requires
        0 <= i <= s.len(),
    ensures
        spec_decimal_value(s.subrange(0, i)) <= spec_decimal_value(s),
    decreases s.len() - i,
{
    if i < s.len() {
        lemma_decimal_prefix_le(s, i + 1);
        let shorter = s.subrange(0, i);
        let longer = s.subrange(0, i + 1);
        assert(longer.drop_last() =~= shorter);
        assert(spec_decimal_value(longer) == spec_decimal_value(shorter) * 10 + spec_char_digit(
            longer.last(),
        ));
    } else {
        assert(s.subrange(0, i) =~= s);
    }
}

/// A handle to one table of a remote table service, by name.
#[derive(Debug, PartialEq, Eq)]
pub struct RemoteTable {
    name: String,
}

impl View for RemoteTable {
    type V = Seq<char>;

    closed spec fn view(&self) -> Seq<char> {
        self.name@
    }
}

impl RemoteTable {
    /// A handle to the table called `name`.
    pub fn new(name: String) -> (r: RemoteTable)
        ensures
            r@ == name@,
    {
        RemoteTable { name }
    }

    /// The table's name.
    pub fn name(&self) -> (r: &str)
        ensures
            r@ == self@,
    {
        self.name.as_str()
    }

    /// The request path of the table-description endpoint.
    pub fn describe_path(&self) -> (r: String)
        ensures
            r@ == "/v1/table/"@ + self@ + "/describe/"@,
    {
        let mut s = <String as StringExecFns>::from_str("/v1/table/");
        s.append(self.name.as_str());
        s.append("/describe/");
        s
    }

    /// The request path of the row-count endpoint.
    pub fn count_rows_path(&self) -> (r: String)
        ensures
            r@ == "/v1/table/"@ + self@ + "/count_rows/"@,
    {
        let mut s = <String as StringExecFns>::from_str("/v1/table/");
        s.append(self.name.as_str());
        s.append("/count_rows/");
        s
    }
}

/// The body of a row-count request carrying the optional filter predicate.
pub fn count_rows_request_body(filter: Option<String>) -> (r: String)
    ensures
        r@ == spec_count_rows_request_body(
            match filter {
                Some(f) => Some(f@),
                None => None,
            },
        ),
{
    match filter {
        Some(f) => {
            let mut s = <String as StringExecFns>::from_str("{\"predicate\":\"");
            let escaped = json_escape(f.as_str());
            s.append(escaped.as_str());
            s.append("\"}");
            s
        },
        None => <String as StringExecFns>::from_str("{\"predicate\":null}"),
    }
}

/// Interprets a service response: a successful exchange hands the body on,
/// an unsuccessful one is a service error carrying the body as its message.
pub fn interpret_response(success: bool, body: String) -> (r: Result<String, Error>)
    ensures
        match r {
            Ok(b) => success && b@ == body@,
            Err(e) => !success && e@ == (ErrorModel::Runtime { message: body@ }),
        },
{
    if success {
        Ok(body)
    } else {
        Err(Error::Runtime { message: body })
    }
}

/// Interprets a row-count response: an unsuccessful exchange, or a body that
/// is not a decimal count that fits the machine, is a service error carrying
/// the body; otherwise the count.
pub fn count_rows_from_response(success: bool, body: String) -> (r: Result<usize, Error>)
    ensures
        match r {
            Ok(n) => {
                &&& success
                &&& spec_is_decimal(body@)
                &&& spec_decimal_value(body@) <= usize::MAX
                &&& n == spec_decimal_value(body@)
            },
            Err(e) => {
                &&& !(success && spec_is_decimal(body@) && spec_decimal_value(body@) <= usize::MAX)
                &&& e@ == (ErrorModel::Runtime { message: body@ })
            },
        },
{
    if !success {
        return Err(Error::Runtime { message: body });
    }
    let n = body.as_str().unicode_len();
    if n == 0 {
        return Err(Error::Runtime { message: body });
    }
    let mut value: usize = 0;
    let mut i: usize = 0;
    while i < n
        invariant
            n == body@.len(),
            0 <= i <= n,
            value == spec_decimal_value(body@.subrange(0, i as int)),
            forall|j: int| 0 <= j < i ==> spec_is_digit(#[trigger] body@[j]),
        decreases n - i,
    {
        let c = body.as_str().get_char(i);
        let u = c as u32;
        if u < 48 || u > 57 {
            return Err(Error::Runtime { message: body });
        }
        let digit = (u - 48) as usize;
        proof {
            let prefix = body@.subrange(0, i + 1);
            assert(prefix.drop_last() =~= body@.subrange(0, i as int));
            assert(prefix.last() == body@[i as int]);
            lemma_decimal_prefix_le(body@, i + 1);
        }
        let scaled = match value.checked_mul(10) {
            Some(v) => v,
            None => {
                return Err(Error::Runtime { message: body });
            },
        };
        let next = match scaled.checked_add(digit) {
            Some(v) => v,
            None => {
                return Err(Error::Runtime { message: body });
            },
        };
        value = next;
        i = i + 1;
    }
    proof {
        assert(body@.subrange(0, n as int) =~= body@);
    }
    Ok(value)
}

} // verus!
