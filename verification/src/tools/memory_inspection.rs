//! Tools that read, write, disassemble, search and dump the memory of the
//! debugged process and describe its layout.

use vstd::prelude::*;
use crate::bytes::{
    ascii_text, byte_list, chunk_count, hex_ascii_line, hex_bytes, hex_joined, hex_line, hex_list,
    hex_list_text, hexdump, hexdump_text, is_bytes_result, le_words, le_words_of, listing_lines,
    parse_byte_list, parse_hex_bytes,
};
use crate::error::IncodeError;
use crate::json::{
    arg_bool_or, arg_str, arg_str_or, arg_u64, arg_u64_or, as_boolean, as_text, as_uint, entry,
    is_text, is_text_array, jstr, lookup, text_array, Arguments, Json,
};
use crate::lldb_manager::{MemoryMap, MemoryRegion, MemorySegment};
use crate::text::{
    chars_of, dec_str, has_prefix, has_substr, hex_addr, push_dec, push_hex_address, push_str,
    second_piece, second_piece_of, split_char, str_contains, str_eq, str_starts_with, views,
};
use crate::tools::{
    address_value, error_response, failure, has_text, has_value, hex_number, hex_number_from,
    is_failure, is_json_object, json_entries, parse_address, reports_error, ToolResponse,
};

verus! {

broadcast use vstd::string::group_string_axioms;

fn address_text(a: u64) -> (r: String)
    ensures
        r@ == hex_addr(a as nat),
{
    let mut s = String::new();
    push_hex_address(&mut s, a);
    s
}

/// The required `address` argument: hexadecimal, `0x` optional.
pub open spec fn is_address_arg(args: Seq<(String, Json)>, r: Result<u64, IncodeError>) -> bool {
    match as_text(lookup(args, "address"@)) {
        None => r matches Err(IncodeError::McpProtocol(m)) && m@ == "Missing address parameter"@,
        Some(t) => match address_value(t) {
            Some(a) => r == Ok::<u64, IncodeError>(a),
            None => r matches Err(IncodeError::McpProtocol(m)) && m@ == "Invalid address format: "@
                + t,
        },
    }
}

/// Reads the required `address` argument.
pub fn read_address(args: &Arguments) -> (r: Result<u64, IncodeError>)
    ensures
        is_address_arg(args@, r),
{
    let text = match arg_str(args, "address") {
        Some(t) => t,
        None => {
            return Err(IncodeError::mcp("Missing address parameter"));
        },
    };
    match parse_address(text.as_str()) {
        Some(a) => Ok(a),
        None => {
            let mut msg = String::new();
            push_str(&mut msg, "Invalid address format: ");
            push_str(&mut msg, text.as_str());
            Err(IncodeError::McpProtocol(msg))
        },
    }
}

/// The required `size` argument as a byte count (its low bits where it
/// does not fit).
pub open spec fn size_arg(args: Seq<(String, Json)>) -> Option<usize> {
    match as_uint(lookup(args, "size"@)) {
        Some(n) => Some(n as usize),
        None => None,
    }
}

fn read_size(args: &Arguments) -> (r: Result<usize, IncodeError>)
    ensures
        match size_arg(args@) {
            Some(n) => r == Ok::<usize, IncodeError>(n),
            None => r matches Err(IncodeError::McpProtocol(m)) && m@ == "Missing size parameter"@,
        },
{
    match arg_u64(args, "size") {
        Some(n) => Ok(#[verifier::truncate] (n as usize)),
        None => Err(IncodeError::mcp("Missing size parameter")),
    }
}

// ---------------------------------------------------------------------------
// read_memory
// ---------------------------------------------------------------------------

/// A read of memory.
#[derive(Debug)]
pub struct ReadRequest {
    pub address: u64,
    pub size: usize,
    pub format: String,
    pub bytes_per_line: usize,
}

/// The formats that list memory line by line.
pub open spec fn is_listing_format(format: Seq<char>) -> bool {
    format == "hex"@ || format == "hex_ascii"@
}

/// `j` is `data`, read from `base`, in the format `format`: lines of
/// `bytes_per_line` bytes in hexadecimal (`hex`), with their characters
/// (`hex_ascii`), the characters alone (`ascii`), the byte values
/// (`binary`), or little-endian 32- or 64-bit numbers (`uint32`,
/// `uint64`); any other format is named as unknown.
pub open spec fn is_memory_data(j: Json, data: Seq<u8>, base: u64, format: Seq<char>, bytes_per_line: nat) -> bool {
    if format == "hex"@ {
        is_text_array(
            j,
            Seq::new(
                chunk_count(data.len(), bytes_per_line),
                |i: int| hex_line(data, base, bytes_per_line, i),
            ),
        )
    } else if format == "ascii"@ {
        is_text(j, ascii_text(data))
    } else if format == "hex_ascii"@ {
        is_text_array(
            j,
            Seq::new(
                chunk_count(data.len(), bytes_per_line),
                |i: int| hex_ascii_line(data, base, bytes_per_line, i),
            ),
        )
    } else if format == "binary"@ {
        j matches Json::Array(items) && items@.len() == data.len() && forall|i: int|
            0 <= i < data.len() ==> #[trigger] items@[i] == Json::UInt(data[i] as u64)
    } else if format == "uint32"@ || format == "uint64"@ {
        let words = le_words(
            data,
            if format == "uint32"@ {
                4nat
            } else {
                8nat
            },
        );
        j matches Json::Array(items) && items@.len() == words.len() && forall|i: int|
            0 <= i < words.len() ==> #[trigger] items@[i] == Json::UInt(words[i] as u64)
    } else {
        is_text(j, "Unknown format: "@ + format)
    }
}

/// Reads memory and shows it in one of several formats.
#[derive(Debug)]
pub struct ReadMemoryTool;

impl ReadMemoryTool {
    pub fn name(&self) -> (r: &'static str)
        ensures
            r@ == "read_memory"@,
    {
        "read_memory"
    }

    pub fn description(&self) -> (r: &'static str)
        ensures
            r@ == "Read raw memory at address with size and format options"@,
    {
        "Read raw memory at address with size and format options"
    }

    /// Reads the request: the address and size (required), the format
    /// (`hex_ascii` by default) and the bytes per line (16 by default).
    pub fn request(&self, args: &Arguments) -> (r: Result<ReadRequest, IncodeError>)
        ensures
            match as_text(lookup(args@, "address"@)) {
                None => r matches Err(IncodeError::McpProtocol(m)) && m@
                    == "Missing address parameter"@,
                Some(t) => match address_value(t) {
                    None => r matches Err(IncodeError::McpProtocol(m)) && m@
                        == "Invalid address format: "@ + t,
                    Some(a) => match size_arg(args@) {
                        None => r matches Err(IncodeError::McpProtocol(m)) && m@
                            == "Missing size parameter"@,
                        Some(n) => r matches Ok(q) && q.address == a && q.size == n && q.format@
                            == match as_text(lookup(args@, "format"@)) {
                            Some(f) => f,
                            None => "hex_ascii"@,
                        } && q.bytes_per_line == match as_uint(lookup(args@, "bytes_per_line"@)) {
                            Some(k) => #[verifier::truncate] (k as usize),
                            None => 16usize,
                        },
                    },
                },
            },
    {
        let address = match read_address(args) {
            Ok(a) => a,
            Err(e) => {
                return Err(e);
            },
        };
        let size = match read_size(args) {
            Ok(n) => n,
            Err(e) => {
                return Err(e);
            },
        };
        let format = arg_str_or(args, "format", "hex_ascii");
        let bytes_per_line = #[verifier::truncate] (arg_u64_or(args, "bytes_per_line", 16) as usize);
        Ok(ReadRequest { address, size, format, bytes_per_line })
    }

    /// `data`, read from `base_address`, in the format `format`.
    pub fn format_memory_data(data: &Vec<u8>, base_address: u64, format: &str, bytes_per_line: usize) -> (r: Json)
        requires
            is_listing_format(format@) ==> bytes_per_line > 0,
        ensures
            is_memory_data(r, data@, base_address, format@, bytes_per_line as nat),
    {
        if str_eq(format, "hex") {
            let lines = listing_lines(data, base_address, bytes_per_line, false);
            text_array(&lines)
        } else if str_eq(format, "ascii") {
            let mut s = String::new();
            crate::bytes::push_ascii(&mut s, data, 0, data.len());
            assert(data@.subrange(0, data@.len() as int) =~= data@);
            Json::Str(s)
        } else if str_eq(format, "hex_ascii") {
            let lines = listing_lines(data, base_address, bytes_per_line, true);
            text_array(&lines)
        } else if str_eq(format, "binary") {
            let mut items: Vec<Json> = Vec::new();
            let mut i: usize = 0;
            while i < data.len()
                invariant
                    i <= data@.len(),
                    items@.len() == i,
                    forall|k: int| 0 <= k < i ==> #[trigger] items@[k] == Json::UInt(data@[k] as u64),
                decreases data@.len() - i,
            {
                items.push(Json::UInt(data[i] as u64));
                i = i + 1;
            }
            Json::Array(items)
        } else if str_eq(format, "uint32") || str_eq(format, "uint64") {
            let width: usize = if str_eq(format, "uint32") {
                4
            } else {
                8
            };
            let words = le_words_of(data, width);
            let mut items: Vec<Json> = Vec::new();
            let mut i: usize = 0;
            while i < words.len()
                invariant
                    i <= words@.len(),
                    items@.len() == i,
                    forall|k: int| 0 <= k < i ==> #[trigger] items@[k] == Json::UInt(words@[k]),
                decreases words@.len() - i,
            {
                items.push(Json::UInt(words[i]));
                i = i + 1;
            }
            Json::Array(items)
        } else {
            let mut s = String::new();
            push_str(&mut s, "Unknown format: ");
            push_str(&mut s, format);
            Json::Str(s)
        }
    }

    /// The answer: the bytes read, in the requested format.
    pub fn respond(&self, q: &ReadRequest, outcome: Result<Vec<u8>, IncodeError>) -> (r: ToolResponse)
        requires
            is_listing_format(q.format@) ==> q.bytes_per_line > 0,
        ensures
            match outcome {
                Ok(data) => {
                    let es = json_entries(r);
                    &&& is_json_object(r, 6)
                    &&& has_text(es, 0, "address"@, hex_addr(q.address as nat))
                    &&& has_value(es, 1, "size"@, Json::UInt(data@.len() as u64))
                    &&& has_text(es, 2, "format"@, q.format@)
                    &&& es[3].0@ == "data"@ && is_memory_data(
                        es[3].1,
                        data@,
                        q.address,
                        q.format@,
                        q.bytes_per_line as nat,
                    )
                    &&& has_value(es, 4, "raw_bytes"@, Json::UInt(data@.len() as u64))
                    &&& has_text(
                        es,
                        5,
                        "message"@,
                        "Read "@ + dec_str(data@.len()) + " bytes from address "@ + hex_addr(
                            q.address as nat,
                        ),
                    )
                },
                Err(e) => reports_error(r, e),
            },
    {
        match outcome {
            Ok(data) => {
                let n = data.len();
                let formatted = Self::format_memory_data(
                    &data,
                    q.address,
                    q.format.as_str(),
                    q.bytes_per_line,
                );
                let mut msg = String::new();
                push_str(&mut msg, "Read ");
                push_dec(&mut msg, n as u64);
                push_str(&mut msg, " bytes from address ");
                push_hex_address(&mut msg, q.address);
                let mut es: Vec<(String, Json)> = Vec::new();
                es.push(entry("address", Json::Str(address_text(q.address))));
                es.push(entry("size", Json::UInt(n as u64)));
                es.push(entry("format", Json::Str(q.format.clone())));
                es.push(entry("data", formatted));
                es.push(entry("raw_bytes", Json::UInt(n as u64)));
                es.push(entry("message", Json::Str(msg)));
                ToolResponse::Json(Json::Object(es))
            },
            Err(e) => error_response(&e),
        }
    }
}

// ---------------------------------------------------------------------------
// write_memory
// ---------------------------------------------------------------------------

/// A write to memory.
#[derive(Debug)]
pub struct WriteRequest {
    pub address: u64,
    pub data: Vec<u8>,
    pub format: String,
    pub verify: bool,
}

/// The bytes a data argument denotes in the format `format` (`hex`,
/// `ascii` or `bytes`), none for another format.
pub open spec fn data_bytes(data: Seq<char>, format: Seq<char>, odd: Seq<char>) -> Option<Result<Seq<u8>, Seq<char>>> {
    if format == "hex"@ {
        Some(hex_bytes(data, odd))
    } else if format == "ascii"@ {
        Some(Ok(vstd::utf8::encode_utf8(data)))
    } else if format == "bytes"@ {
        Some(byte_list(split_char(data, ',')))
    } else {
        None
    }
}

fn bytes_in(data: &str, format: &str, odd: &str) -> (r: Option<Result<Vec<u8>, IncodeError>>)
    ensures
        match data_bytes(data@, format@, odd@) {
            None => r is None,
            Some(spec) => r matches Some(res) && is_bytes_result(res, spec),
        },
{
    if str_eq(format, "hex") {
        Some(parse_hex_bytes(data, odd))
    } else if str_eq(format, "ascii") {
        Some(Ok(vstd::string::StrSliceExecFns::as_bytes_vec(data)))
    } else if str_eq(format, "bytes") {
        Some(parse_byte_list(data))
    } else {
        None
    }
}

fn bytes_equal(a: &Vec<u8>, b: &Vec<u8>) -> (r: bool)
    ensures
        r == (a@ == b@),
{
    if a.len() != b.len() {
        return false;
    }
    let mut i: usize = 0;
    while i < a.len()
        invariant
            a@.len() == b@.len(),
            i <= a@.len(),
            forall|k: int| 0 <= k < i ==> a@[k] == b@[k],
        decreases a@.len() - i,
    {
        if a[i] != b[i] {
            return false;
        }
        i = i + 1;
    }
    assert(a@ =~= b@);
    true
}

/// `v` reports how reading back a write went: whether the bytes read back
/// are those written, with both lists, or the error of the read.
pub open spec fn is_verification(v: Json, written: Seq<u8>, read_back: Result<Vec<u8>, IncodeError>) -> bool {
    v matches Json::Object(es) && match read_back {
        Ok(read) => {
            let same = read@ == written;
            &&& es@.len() == 4
            &&& has_value(es@, 0, "requested"@, Json::Bool(same))
            &&& has_value(es@, 1, "success"@, Json::Bool(same))
            &&& has_text(es@, 2, "original_data"@, hex_list(written))
            &&& has_text(es@, 3, "read_back_data"@, hex_list(read@))
        },
        Err(e) => {
            &&& es@.len() == 3
            &&& has_value(es@, 0, "requested"@, Json::Bool(true))
            &&& has_value(es@, 1, "success"@, Json::Bool(false))
            &&& es@[2].0@ == "error"@ && (es@[2].1 matches Json::Str(t) && (
            crate::error::has_known_text(e) ==> t@ == crate::error::error_text(e)))
        },
    }
}

/// Writes bytes into memory.
#[derive(Debug)]
pub struct WriteMemoryTool;

/// The hexadecimal text that `DumpMemoryTool::format_as_hex` writes for
/// some bytes, `WriteMemoryTool::parse_hex_data` reads back as the same
/// bytes.
pub proof fn law_dumped_hex_reads_back(data: Seq<u8>)
    ensures
        hex_bytes(hex_joined(data, Seq::empty()), "Hex data must have even number of characters"@)
            == Ok::<Seq<u8>, Seq<char>>(data),
{
    crate::bytes::lemma_hex_text_reads_back(data, "Hex data must have even number of characters"@);
}

impl WriteMemoryTool {
    pub fn name(&self) -> (r: &'static str)
        ensures
            r@ == "write_memory"@,
    {
        "write_memory"
    }

    pub fn description(&self) -> (r: &'static str)
        ensures
            r@ == "Write data to memory address"@,
    {
        "Write data to memory address"
    }

    /// Reads hexadecimal data such as `de ad be ef`.
    pub fn parse_hex_data(hex_str: &str) -> (r: Result<Vec<u8>, IncodeError>)
        ensures
            is_bytes_result(r, hex_bytes(hex_str@, "Hex data must have even number of characters"@)),
    {
        parse_hex_bytes(hex_str, "Hex data must have even number of characters")
    }

    /// Reads a comma-separated list of bytes such as `0xde,0xad`.
    pub fn parse_byte_array(byte_str: &str) -> (r: Result<Vec<u8>, IncodeError>)
        ensures
            is_bytes_result(r, byte_list(split_char(byte_str@, ','))),
    {
        parse_byte_list(byte_str)
    }

    /// Reads the request: the address and data (required), the data's
    /// format (`hex` by default) and whether to read the bytes back
    /// (`verify`, false by default). Data that does not read in its format
    /// fails; an unknown format is answered at once.
    pub fn request(&self, args: &Arguments) -> (r: Result<Result<WriteRequest, ToolResponse>, IncodeError>)
        ensures
            match as_text(lookup(args@, "address"@)) {
                None => r matches Err(IncodeError::McpProtocol(m)) && m@
                    == "Missing address parameter"@,
                Some(t) => match address_value(t) {
                    None => r matches Err(IncodeError::McpProtocol(m)) && m@
                        == "Invalid address format: "@ + t,
                    Some(a) => match as_text(lookup(args@, "data"@)) {
                        None => r matches Err(IncodeError::McpProtocol(m)) && m@
                            == "Missing data parameter"@,
                        Some(d) => {
                            let format = match as_text(lookup(args@, "format"@)) {
                                Some(f) => f,
                                None => "hex"@,
                            };
                            match data_bytes(
                                d,
                                format,
                                "Hex data must have even number of characters"@,
                            ) {
                                None => r matches Ok(Err(resp)) && is_failure(
                                    resp,
                                    "Unknown format: "@ + format,
                                ),
                                Some(Err(m)) => r matches Err(IncodeError::McpProtocol(t)) && t@
                                    == m,
                                Some(Ok(bytes)) => r matches Ok(Ok(q)) && q.address == a
                                    && q.data@ == bytes && q.format@ == format && q.verify
                                    == match as_boolean(lookup(args@, "verify"@)) {
                                    Some(b) => b,
                                    None => false,
                                },
                            }
                        },
                    },
                },
            },
    {
        let address = match read_address(args) {
            Ok(a) => a,
            Err(e) => {
                return Err(e);
            },
        };
        let data = match arg_str(args, "data") {
            Some(d) => d,
            None => {
                return Err(IncodeError::mcp("Missing data parameter"));
            },
        };
        let format = arg_str_or(args, "format", "hex");
        let verify = arg_bool_or(args, "verify", false);
        match bytes_in(
            data.as_str(),
            format.as_str(),
            "Hex data must have even number of characters",
        ) {
            None => {
                let mut msg = String::new();
                push_str(&mut msg, "Unknown format: ");
                push_str(&mut msg, format.as_str());
                Ok(Err(ToolResponse::Error(msg)))
            },
            Some(Err(e)) => Err(e),
            Some(Ok(bytes)) => Ok(Ok(WriteRequest { address, data: bytes, format, verify })),
        }
    }

    /// The answer to the write `q`: how many bytes were written and, where
    /// the write asked for it, what reading them back (`read_back`) showed.
    pub fn respond(
        &self,
        q: &WriteRequest,
        outcome: Result<usize, IncodeError>,
        read_back: Option<Result<Vec<u8>, IncodeError>>,
    ) -> (r: ToolResponse)
        requires
            outcome is Ok ==> (q.verify <==> read_back is Some),
        ensures
            match outcome {
                Ok(n) => {
                    let es = json_entries(r);
                    &&& is_json_object(
                        r,
                        if q.verify {
                            6
                        } else {
                            5
                        },
                    )
                    &&& has_text(es, 0, "address"@, hex_addr(q.address as nat))
                    &&& has_value(es, 1, "bytes_written"@, Json::UInt(n as u64))
                    &&& has_text(es, 2, "format"@, q.format@)
                    &&& has_value(es, 3, "success"@, Json::Bool(true))
                    &&& has_text(
                        es,
                        4,
                        "message"@,
                        "Wrote "@ + dec_str(n as nat) + " bytes to address "@ + hex_addr(
                            q.address as nat,
                        ),
                    )
                    &&& q.verify ==> es[5].0@ == "verification"@ && is_verification(
                        es[5].1,
                        q.data@,
                        read_back->0,
                    )
                },
                Err(e) => reports_error(r, e),
            },
    {
        match outcome {
            Ok(n) => {
                let mut msg = String::new();
                push_str(&mut msg, "Wrote ");
                push_dec(&mut msg, n as u64);
                push_str(&mut msg, " bytes to address ");
                push_hex_address(&mut msg, q.address);
                let mut es: Vec<(String, Json)> = Vec::new();
                es.push(entry("address", Json::Str(address_text(q.address))));
                es.push(entry("bytes_written", Json::UInt(n as u64)));
                es.push(entry("format", Json::Str(q.format.clone())));
                es.push(entry("success", Json::Bool(true)));
                es.push(entry("message", Json::Str(msg)));
                if q.verify {
                    let mut v: Vec<(String, Json)> = Vec::new();
                    match read_back {
                        Some(Ok(read)) => {
                            let same = bytes_equal(&read, &q.data);
                            v.push(entry("requested", Json::Bool(same)));
                            v.push(entry("success", Json::Bool(same)));
                            v.push(entry("original_data", Json::Str(hex_list_text(&q.data))));
                            v.push(entry("read_back_data", Json::Str(hex_list_text(&read))));
                        },
                        Some(Err(e)) => {
                            v.push(entry("requested", Json::Bool(true)));
                            v.push(entry("success", Json::Bool(false)));
                            v.push(entry("error", Json::Str(e.message())));
                        },
                        None => {},
                    }
                    es.push(entry("verification", Json::Object(v)));
                }
                ToolResponse::Json(Json::Object(es))
            },
            Err(e) => error_response(&e),
        }
    }
}

// ---------------------------------------------------------------------------
// disassemble
// ---------------------------------------------------------------------------

/// A disassembly.
#[derive(Debug)]
pub struct DisassemblyRequest {
    pub address: u64,
    pub count: u32,
    pub format: String,
}

/// `c` is a hexadecimal digit.
pub open spec fn is_hex_digit(c: char) -> bool {
    ('0' <= c <= '9') || ('a' <= c <= 'f') || ('A' <= c <= 'F')
}

/// An instruction line in the format `format`: without its address
/// (`compact`: the part after the first `: `, up to any next one),
/// numbered from 1 (`verbose`), or as it is.
pub open spec fn instruction_line(inst: Seq<char>, i: int, format: Seq<char>) -> Seq<char> {
    if format == "compact"@ {
        match second_piece(inst, ": "@) {
            Some(p) => p,
            None => inst,
        }
    } else if format == "verbose"@ {
        "["@ + dec_str((i + 1) as nat) + "] "@ + inst
    } else {
        inst
    }
}

/// Disassembles instructions.
#[derive(Debug)]
pub struct DisassembleTool;

impl DisassembleTool {
    pub fn name(&self) -> (r: &'static str)
        ensures
            r@ == "disassemble"@,
    {
        "disassemble"
    }

    pub fn description(&self) -> (r: &'static str)
        ensures
            r@ == "Disassemble instructions at address or function name"@,
    {
        "Disassemble instructions at address or function name"
    }

    /// Reads the request: the address (required: `0x` and hexadecimal
    /// digits, or hexadecimal digits alone; a function name is answered at
    /// once as not supported), the count (10 by default, its low 32 bits)
    /// and the format (`default` by default).
    pub fn request(&self, args: &Arguments) -> (r: Result<Result<DisassemblyRequest, ToolResponse>, IncodeError>)
        ensures
            match as_text(lookup(args@, "address"@)) {
                None => r matches Err(IncodeError::McpProtocol(m)) && m@
                    == "Missing address parameter"@,
                Some(t) => {
                    let parsed = if has_prefix(t, "0x"@) {
                        Some(hex_number(t.subrange(2, t.len() as int)))
                    } else if forall|i: int| 0 <= i < t.len() ==> is_hex_digit(#[trigger] t[i]) {
                        Some(hex_number(t))
                    } else {
                        None
                    };
                    match parsed {
                        None => r matches Ok(Err(resp)) && is_failure(
                            resp,
                            "Function name resolution not yet implemented: "@ + t,
                        ),
                        Some(None) => r matches Err(IncodeError::McpProtocol(m)) && m@
                            == "Invalid address format: "@ + t,
                        Some(Some(a)) => r matches Ok(Ok(q)) && q.address == a && q.count
                            == match as_uint(lookup(args@, "count"@)) {
                            Some(n) => n as u32,
                            None => 10u32,
                        } && q.format@ == match as_text(lookup(args@, "format"@)) {
                            Some(f) => f,
                            None => "default"@,
                        },
                    }
                },
            },
    {
        let text = match arg_str(args, "address") {
            Some(t) => t,
            None => {
                return Err(IncodeError::mcp("Missing address parameter"));
            },
        };
        let count = #[verifier::truncate] (arg_u64_or(args, "count", 10) as u32);
        let format = arg_str_or(args, "format", "default");
        let v = chars_of(text.as_str());
        let parsed = if str_starts_with(text.as_str(), "0x") {
            proof {
                reveal_strlit("0x");
            }
            hex_number_from(&v, 2)
        } else {
            let mut all_hex = true;
            let mut i: usize = 0;
            while i < v.len()
                invariant
                    i <= v@.len(),
                    all_hex == forall|k: int| 0 <= k < i ==> is_hex_digit(#[trigger] v@[k]),
                decreases v@.len() - i,
            {
                let c = v[i];
                let d = ('0' <= c && c <= '9') || ('a' <= c && c <= 'f') || ('A' <= c && c <= 'F');
                all_hex = all_hex && d;
                i = i + 1;
            }
            if !all_hex {
                let mut msg = String::new();
                push_str(&mut msg, "Function name resolution not yet implemented: ");
                push_str(&mut msg, text.as_str());
                return Ok(Err(ToolResponse::Error(msg)));
            }
            assert(v@.subrange(0, v@.len() as int) =~= v@);
            hex_number_from(&v, 0)
        };
        match parsed {
            Some(address) => Ok(Ok(DisassemblyRequest { address, count, format })),
            None => {
                let mut msg = String::new();
                push_str(&mut msg, "Invalid address format: ");
                push_str(&mut msg, text.as_str());
                Err(IncodeError::McpProtocol(msg))
            },
        }
    }

    /// The instruction lines in the format `format`.
    pub fn format_disassembly(instructions: &Vec<String>, format: &str) -> (r: Json)
        ensures
            is_text_array(
                r,
                Seq::new(
                    instructions@.len(),
                    |i: int| instruction_line(instructions@[i]@, i, format@),
                ),
            ),
    {
        let ghost expected = Seq::new(
            instructions@.len(),
            |i: int| instruction_line(instructions@[i]@, i, format@),
        );
        let sep = chars_of(": ");
        proof {
            reveal_strlit(": ");
        }
        let mut lines: Vec<String> = Vec::new();
        let mut i: usize = 0;
        while i < instructions.len()
            invariant
                i <= instructions@.len(),
                sep@ == ": "@,
                expected == Seq::new(
                    instructions@.len(),
                    |i: int| instruction_line(instructions@[i]@, i, format@),
                ),
                views(lines@) =~= expected.take(i as int),
            decreases instructions@.len() - i,
        {
            let inst = &instructions[i];
            let line = if str_eq(format, "compact") {
                let cv = chars_of(inst.as_str());
                match second_piece_of(&cv, &sep) {
                    Some(p) => crate::text::string_of(&p),
                    None => inst.clone(),
                }
            } else if str_eq(format, "verbose") {
                let mut l = String::new();
                push_str(&mut l, "[");
                push_dec(&mut l, i as u64 + 1);
                push_str(&mut l, "] ");
                push_str(&mut l, inst.as_str());
                l
            } else {
                inst.clone()
            };
            let ghost before = lines@;
            lines.push(line);
            assert(views(lines@) =~= views(before).push(expected[i as int]));
            assert(expected.take(i + 1) =~= expected.take(i as int).push(expected[i as int]));
            i = i + 1;
        }
        assert(expected.take(instructions@.len() as int) =~= expected);
        text_array(&lines)
    }

    /// The answer: the instructions at the address, in the format.
    pub fn respond(&self, q: &DisassemblyRequest, outcome: Result<Vec<String>, IncodeError>) -> (r:
        ToolResponse)
        ensures
            match outcome {
                Ok(list) => {
                    let es = json_entries(r);
                    &&& is_json_object(r, 5)
                    &&& has_text(es, 0, "address"@, hex_addr(q.address as nat))
                    &&& has_value(es, 1, "count"@, Json::UInt(list@.len() as u64))
                    &&& has_text(es, 2, "format"@, q.format@)
                    &&& es[3].0@ == "instructions"@ && is_text_array(
                        es[3].1,
                        Seq::new(list@.len(), |i: int| instruction_line(list@[i]@, i, q.format@)),
                    )
                    &&& has_text(
                        es,
                        4,
                        "message"@,
                        "Disassembled "@ + dec_str(list@.len()) + " instructions from address "@
                            + hex_addr(q.address as nat),
                    )
                },
                Err(e) => reports_error(r, e),
            },
    {
        match outcome {
            Ok(list) => {
                let n = list.len();
                let formatted = Self::format_disassembly(&list, q.format.as_str());
                let mut msg = String::new();
                push_str(&mut msg, "Disassembled ");
                push_dec(&mut msg, n as u64);
                push_str(&mut msg, " instructions from address ");
                push_hex_address(&mut msg, q.address);
                let mut es: Vec<(String, Json)> = Vec::new();
                es.push(entry("address", Json::Str(address_text(q.address))));
                es.push(entry("count", Json::UInt(n as u64)));
                es.push(entry("format", Json::Str(q.format.clone())));
                es.push(entry("instructions", formatted));
                es.push(entry("message", Json::Str(msg)));
                ToolResponse::Json(Json::Object(es))
            },
            Err(e) => error_response(&e),
        }
    }
}

// ---------------------------------------------------------------------------
// search_memory
// ---------------------------------------------------------------------------

/// A search of memory.
#[derive(Debug)]
pub struct SearchRequest {
    pub pattern: String,
    pub pattern_format: String,
    pub pattern_bytes: Vec<u8>,
    pub start_address: u64,
    pub search_size: usize,
    pub max_results: usize,
}

/// Searches memory for a byte pattern.
#[derive(Debug)]
pub struct SearchMemoryTool;

impl SearchMemoryTool {
    pub fn name(&self) -> (r: &'static str)
        ensures
            r@ == "search_memory"@,
    {
        "search_memory"
    }

    pub fn description(&self) -> (r: &'static str)
        ensures
            r@ == "Search for byte patterns in process memory"@,
    {
        "Search for byte patterns in process memory"
    }

    /// Reads a hexadecimal pattern such as `de ad be ef`.
    pub fn parse_hex_pattern(hex_str: &str) -> (r: Result<Vec<u8>, IncodeError>)
        ensures
            is_bytes_result(
                r,
                hex_bytes(hex_str@, "Hex pattern must have even number of characters"@),
            ),
    {
        parse_hex_bytes(hex_str, "Hex pattern must have even number of characters")
    }

    /// Reads a comma-separated list of bytes such as `0xde,0xad`.
    pub fn parse_byte_pattern(byte_str: &str) -> (r: Result<Vec<u8>, IncodeError>)
        ensures
            is_bytes_result(r, byte_list(split_char(byte_str@, ','))),
    {
        parse_byte_list(byte_str)
    }

    /// Reads the search: the pattern (required) and its format (`hex` by
    /// default), the start address (`0x100000000` by default), the number
    /// of bytes to search (a megabyte by default) and the most matches to
    /// report (100 by default). A pattern that does not read fails; an
    /// unknown pattern format is answered at once.
    pub fn request(&self, args: &Arguments) -> (r: Result<Result<SearchRequest, ToolResponse>, IncodeError>)
        ensures
            match as_text(lookup(args@, "pattern"@)) {
                None => r matches Err(IncodeError::McpProtocol(m)) && m@
                    == "Missing pattern parameter"@,
                Some(p) => {
                    let format = match as_text(lookup(args@, "pattern_format"@)) {
                        Some(f) => f,
                        None => "hex"@,
                    };
                    let start = match as_text(lookup(args@, "start_address"@)) {
                        Some(t) => t,
                        None => "0x100000000"@,
                    };
                    match address_value(start) {
                        None => r matches Err(IncodeError::McpProtocol(m)) && m@
                            == "Invalid start address: "@ + start,
                        Some(a) => match data_bytes(
                            p,
                            format,
                            "Hex pattern must have even number of characters"@,
                        ) {
                            None => r matches Ok(Err(resp)) && is_failure(
                                resp,
                                "Unknown pattern format: "@ + format,
                            ),
                            Some(Err(m)) => r matches Err(IncodeError::McpProtocol(t)) && t@ == m,
                            Some(Ok(bytes)) => r matches Ok(Ok(q)) && q.pattern@ == p
                                && q.pattern_format@ == format && q.pattern_bytes@ == bytes
                                && q.start_address == a && q.search_size == match as_uint(
                                lookup(args@, "search_size"@),
                            ) {
                                Some(n) => n as usize,
                                None => 1048576usize,
                            } && q.max_results == match as_uint(lookup(args@, "max_results"@)) {
                                Some(n) => n as usize,
                                None => 100usize,
                            },
                        },
                    }
                },
            },
    {
        let pattern = match arg_str(args, "pattern") {
            Some(p) => p,
            None => {
                return Err(IncodeError::mcp("Missing pattern parameter"));
            },
        };
        let pattern_format = arg_str_or(args, "pattern_format", "hex");
        let start_text = arg_str_or(args, "start_address", "0x100000000");
        let start_address = match parse_address(start_text.as_str()) {
            Some(a) => a,
            None => {
                let mut msg = String::new();
                push_str(&mut msg, "Invalid start address: ");
                push_str(&mut msg, start_text.as_str());
                return Err(IncodeError::McpProtocol(msg));
            },
        };
        let search_size = #[verifier::truncate] (arg_u64_or(args, "search_size", 1048576) as usize);
        let max_results = #[verifier::truncate] (arg_u64_or(args, "max_results", 100) as usize);
        match bytes_in(
            pattern.as_str(),
            pattern_format.as_str(),
            "Hex pattern must have even number of characters",
        ) {
            None => {
                let mut msg = String::new();
                push_str(&mut msg, "Unknown pattern format: ");
                push_str(&mut msg, pattern_format.as_str());
                Ok(Err(ToolResponse::Error(msg)))
            },
            Some(Err(e)) => Err(e),
            Some(Ok(pattern_bytes)) => Ok(
                Ok(
                    SearchRequest {
                        pattern,
                        pattern_format,
                        pattern_bytes,
                        start_address,
                        search_size,
                        max_results,
                    },
                ),
            ),
        }
    }

    /// The answer: the first `max_results` matches, as addresses.
    pub fn respond(&self, q: &SearchRequest, outcome: Result<Vec<u64>, IncodeError>) -> (r:
        ToolResponse)
        ensures
            match outcome {
                Ok(found) => {
                    let n = if found@.len() < q.max_results {
                        found@.len() as int
                    } else {
                        q.max_results as int
                    };
                    let es = json_entries(r);
                    &&& is_json_object(r, 9)
                    &&& has_text(es, 0, "pattern"@, q.pattern@)
                    &&& has_text(es, 1, "pattern_format"@, q.pattern_format@)
                    &&& has_text(es, 2, "pattern_bytes"@, hex_list(q.pattern_bytes@))
                    &&& has_text(es, 3, "start_address"@, hex_addr(q.start_address as nat))
                    &&& has_value(es, 4, "search_size"@, Json::UInt(q.search_size as u64))
                    &&& has_value(es, 5, "matches_found"@, Json::UInt(n as u64))
                    &&& es[6].0@ == "matches"@ && is_text_array(
                        es[6].1,
                        Seq::new(n as nat, |i: int| hex_addr(found@[i] as nat)),
                    )
                    &&& has_value(es, 7, "truncated"@, Json::Bool(n == q.max_results))
                    &&& has_text(
                        es,
                        8,
                        "message"@,
                        "Found "@ + dec_str(n as nat) + " matches for pattern in "@ + dec_str(
                            q.search_size as nat,
                        ) + " bytes of memory"@,
                    )
                },
                Err(e) => reports_error(r, e),
            },
    {
        match outcome {
            Ok(found) => {
                let n: usize = if found.len() < q.max_results {
                    found.len()
                } else {
                    q.max_results
                };
                let ghost expected = Seq::new(n as nat, |i: int| hex_addr(found@[i] as nat));
                let mut addresses: Vec<String> = Vec::new();
                let mut i: usize = 0;
                while i < n
                    invariant
                        n <= found@.len(),
                        i <= n,
                        expected == Seq::new(n as nat, |i: int| hex_addr(found@[i] as nat)),
                        views(addresses@) =~= expected.take(i as int),
                    decreases n - i,
                {
                    let ghost before = addresses@;
                    addresses.push(address_text(found[i]));
                    assert(views(addresses@) =~= views(before).push(expected[i as int]));
                    assert(expected.take(i + 1) =~= expected.take(i as int).push(expected[i as int]));
                    i = i + 1;
                }
                assert(expected.take(n as int) =~= expected);
                let mut msg = String::new();
                push_str(&mut msg, "Found ");
                push_dec(&mut msg, n as u64);
                push_str(&mut msg, " matches for pattern in ");
                push_dec(&mut msg, q.search_size as u64);
                push_str(&mut msg, " bytes of memory");
                let mut es: Vec<(String, Json)> = Vec::new();
                es.push(entry("pattern", Json::Str(q.pattern.clone())));
                es.push(entry("pattern_format", Json::Str(q.pattern_format.clone())));
                es.push(entry("pattern_bytes", Json::Str(hex_list_text(&q.pattern_bytes))));
                es.push(entry("start_address", Json::Str(address_text(q.start_address))));
                es.push(entry("search_size", Json::UInt(q.search_size as u64)));
                es.push(entry("matches_found", Json::UInt(n as u64)));
                es.push(entry("matches", text_array(&addresses)));
                es.push(entry("truncated", Json::Bool(n == q.max_results)));
                es.push(entry("message", Json::Str(msg)));
                ToolResponse::Json(Json::Object(es))
            },
            Err(e) => error_response(&e),
        }
    }
}

// ---------------------------------------------------------------------------
// get_memory_regions
// ---------------------------------------------------------------------------

/// The name a region shows: its own, or `<unnamed>`.
pub open spec fn region_name(r: MemoryRegion) -> Seq<char> {
    match r.name {
        Some(n) => n@,
        None => "<unnamed>"@,
    }
}

/// A region is listed: it matches the filter (in its permissions or its
/// name) where one is given, and it is not empty unless empty regions are
/// asked for.
pub open spec fn region_listed(r: MemoryRegion, filter: Seq<char>, include_empty: bool) -> bool {
    &&& filter.len() == 0 || has_substr(r.permissions@, filter) || (r.name matches Some(n)
        && has_substr(n@, filter))
    &&& include_empty || r.size > 0
}

/// `v` describes the region `r` in full.
pub open spec fn is_region_json(v: Json, r: MemoryRegion) -> bool {
    v matches Json::Object(es) && {
        let es = es@;
        &&& es.len() == 9
        &&& has_text(es, 0, "start_address"@, hex_addr(r.start_address as nat))
        &&& has_text(es, 1, "end_address"@, hex_addr(r.end_address as nat))
        &&& has_value(es, 2, "size"@, Json::UInt(r.size))
        &&& has_value(es, 3, "size_kb"@, Json::UInt(r.size / 1024))
        &&& has_text(es, 4, "permissions"@, r.permissions@)
        &&& has_text(es, 5, "name"@, region_name(r))
        &&& has_value(es, 6, "readable"@, Json::Bool(r.permissions@.contains('r')))
        &&& has_value(es, 7, "writable"@, Json::Bool(r.permissions@.contains('w')))
        &&& has_value(es, 8, "executable"@, Json::Bool(r.permissions@.contains('x')))
    }
}

/// The line that describes the region `r` in a line format: bounds,
/// permissions and name (`compact`), or the start alone
/// (`addresses_only`).
pub open spec fn region_text(r: MemoryRegion, format: Seq<char>) -> Seq<char> {
    if format == "compact"@ {
        hex_addr(r.start_address as nat) + "-"@ + hex_addr(r.end_address as nat) + " "@
            + r.permissions@ + " "@ + region_name(r)
    } else {
        hex_addr(r.start_address as nat)
    }
}

/// `j` describes the regions in the format `format`.
pub open spec fn is_formatted_regions(j: Json, regions: Seq<MemoryRegion>, format: Seq<char>) -> bool {
    j matches Json::Array(items) && items@.len() == regions.len() && forall|i: int|
        0 <= i < regions.len() ==> if format == "compact"@ || format == "addresses_only"@ {
            is_text(#[trigger] items@[i], region_text(regions[i], format))
        } else {
            is_region_json(items@[i], regions[i])
        }
}

fn name_or_unnamed(r: &MemoryRegion) -> (s: String)
    ensures
        s@ == region_name(*r),
{
    match &r.name {
        Some(n) => n.clone(),
        None => "<unnamed>".to_owned(),
    }
}

fn has_char(s: &str, c: char) -> (r: bool)
    ensures
        r == s@.contains(c),
{
    let v = chars_of(s);
    crate::text::find_char(&v, c).is_some()
}

fn region_json(r: &MemoryRegion) -> (v: Json)
    ensures
        is_region_json(v, *r),
{
    let mut es: Vec<(String, Json)> = Vec::new();
    es.push(entry("start_address", Json::Str(address_text(r.start_address))));
    es.push(entry("end_address", Json::Str(address_text(r.end_address))));
    es.push(entry("size", Json::UInt(r.size)));
    es.push(entry("size_kb", Json::UInt(r.size / 1024)));
    es.push(entry("permissions", Json::Str(r.permissions.clone())));
    es.push(entry("name", Json::Str(name_or_unnamed(r))));
    es.push(entry("readable", Json::Bool(has_char(r.permissions.as_str(), 'r'))));
    es.push(entry("writable", Json::Bool(has_char(r.permissions.as_str(), 'w'))));
    es.push(entry("executable", Json::Bool(has_char(r.permissions.as_str(), 'x'))));
    Json::Object(es)
}

fn region_text_of(r: &MemoryRegion, format: &str) -> (s: String)
    ensures
        s@ == region_text(*r, format@),
{
    let mut s = String::new();
    push_hex_address(&mut s, r.start_address);
    if str_eq(format, "compact") {
        push_str(&mut s, "-");
        push_hex_address(&mut s, r.end_address);
        push_str(&mut s, " ");
        push_str(&mut s, r.permissions.as_str());
        push_str(&mut s, " ");
        let n = name_or_unnamed(r);
        push_str(&mut s, n.as_str());
    }
    s
}

/// Lists the memory regions of the process.
#[derive(Debug)]
pub struct GetMemoryRegionsTool;

impl GetMemoryRegionsTool {
    pub fn name(&self) -> (r: &'static str)
        ensures
            r@ == "get_memory_regions"@,
    {
        "get_memory_regions"
    }

    pub fn description(&self) -> (r: &'static str)
        ensures
            r@ == "List memory mappings and permissions for the target process"@,
    {
        "List memory mappings and permissions for the target process"
    }

    /// The filter (`filter`, empty by default), whether empty regions are
    /// listed (`include_empty`, false by default) and the format
    /// (`format`, `detailed` by default).
    pub fn options(&self, args: &Arguments) -> (r: (String, bool, String))
        ensures
            r.0@ == match as_text(lookup(args@, "filter"@)) {
                Some(t) => t,
                None => Seq::empty(),
            },
            r.1 == match as_boolean(lookup(args@, "include_empty"@)) {
                Some(b) => b,
                None => false,
            },
            r.2@ == match as_text(lookup(args@, "format"@)) {
                Some(t) => t,
                None => "detailed"@,
            },
    {
        proof {
            reveal_strlit("");
        }
        (
            arg_str_or(args, "filter", ""),
            arg_bool_or(args, "include_empty", false),
            arg_str_or(args, "format", "detailed"),
        )
    }

    /// The regions in the format `format`.
    pub fn format_regions(regions: &Vec<MemoryRegion>, format: &str) -> (r: Json)
        ensures
            is_formatted_regions(r, regions@, format@),
    {
        let lines = str_eq(format, "compact") || str_eq(format, "addresses_only");
        let mut items: Vec<Json> = Vec::new();
        let mut i: usize = 0;
        while i < regions.len()
            invariant
                i <= regions@.len(),
                lines == (format@ == "compact"@ || format@ == "addresses_only"@),
                items@.len() == i,
                forall|k: int|
                    0 <= k < i ==> if format@ == "compact"@ || format@ == "addresses_only"@ {
                        is_text(#[trigger] items@[k], region_text(regions@[k], format@))
                    } else {
                        is_region_json(items@[k], regions@[k])
                    },
            decreases regions@.len() - i,
        {
            if lines {
                items.push(Json::Str(region_text_of(&regions[i], format)));
            } else {
                items.push(region_json(&regions[i]));
            }
            i = i + 1;
        }
        Json::Array(items)
    }

    /// The answer: the regions that are listed, in the format.
    pub fn respond(
        &self,
        filter: &str,
        include_empty: bool,
        format: &str,
        outcome: Result<Vec<MemoryRegion>, IncodeError>,
    ) -> (r: ToolResponse)
        ensures
            match outcome {
                Ok(regions) => {
                    let shown = regions@.filter(
                        |x: MemoryRegion| region_listed(x, filter@, include_empty),
                    );
                    let es = json_entries(r);
                    &&& is_json_object(r, 7)
                    &&& es[0].0@ == "regions"@ && is_formatted_regions(es[0].1, shown, format@)
                    &&& has_value(es, 1, "total_regions"@, Json::UInt(shown.len() as u64))
                    &&& has_value(es, 2, "filter_applied"@, Json::Bool(filter@.len() > 0))
                    &&& has_text(es, 3, "filter"@, filter@)
                    &&& has_value(es, 4, "include_empty"@, Json::Bool(include_empty))
                    &&& has_text(es, 5, "format"@, format@)
                    &&& has_text(
                        es,
                        6,
                        "message"@,
                        "Found "@ + dec_str(shown.len()) + " memory regions"@,
                    )
                },
                Err(e) => reports_error(r, e),
            },
    {
        match outcome {
            Ok(regions) => {
                let ghost orig = regions@;
                let ghost keep = |x: MemoryRegion| region_listed(x, filter@, include_empty);
                let no_filter = filter.unicode_len() == 0;
                let mut rest = regions;
                let mut shown: Vec<MemoryRegion> = Vec::new();
                let ghost mut k: int = 0;
                assert(orig.take(0) =~= Seq::<MemoryRegion>::empty());
                proof {
                    reveal(Seq::filter);
                }
                while rest.len() > 0
                    invariant
                        0 <= k <= orig.len(),
                        rest@ =~= orig.subrange(k, orig.len() as int),
                        shown@ == orig.take(k).filter(keep),
                        keep == (|x: MemoryRegion| region_listed(x, filter@, include_empty)),
                        no_filter == (filter@.len() == 0),
                    decreases rest.len(),
                {
                    let x = rest.remove(0);
                    proof {
                        assert(orig.take(k + 1).drop_last() =~= orig.take(k));
                        assert(orig.take(k + 1).last() == x);
                        reveal(Seq::filter);
                    }
                    let matches_filter = no_filter || str_contains(
                        x.permissions.as_str(),
                        filter,
                    ) || match &x.name {
                        Some(n) => str_contains(n.as_str(), filter),
                        None => false,
                    };
                    if matches_filter && (include_empty || x.size > 0) {
                        shown.push(x);
                    }
                    proof {
                        k = k + 1;
                    }
                }
                assert(orig.take(k) =~= orig);
                let n = shown.len();
                let formatted = Self::format_regions(&shown, format);
                let mut msg = String::new();
                push_str(&mut msg, "Found ");
                push_dec(&mut msg, n as u64);
                push_str(&mut msg, " memory regions");
                let mut es: Vec<(String, Json)> = Vec::new();
                es.push(entry("regions", formatted));
                es.push(entry("total_regions", Json::UInt(n as u64)));
                es.push(entry("filter_applied", Json::Bool(!no_filter)));
                es.push(entry("filter", jstr(filter)));
                es.push(entry("include_empty", Json::Bool(include_empty)));
                es.push(entry("format", jstr(format)));
                es.push(entry("message", Json::Str(msg)));
                ToolResponse::Json(Json::Object(es))
            },
            Err(e) => error_response(&e),
        }
    }
}

// ---------------------------------------------------------------------------
// dump_memory
// ---------------------------------------------------------------------------

/// A dump of memory to a file.
#[derive(Debug)]
pub struct DumpRequest {
    pub address: u64,
    pub size: usize,
    pub file_path: String,
    pub format: String,
    pub overwrite: bool,
}

/// Dumps memory to a file.
#[derive(Debug)]
pub struct DumpMemoryTool;

impl DumpMemoryTool {
    pub fn name(&self) -> (r: &'static str)
        ensures
            r@ == "dump_memory"@,
    {
        "dump_memory"
    }

    pub fn description(&self) -> (r: &'static str)
        ensures
            r@ == "Dump memory region to file for offline analysis"@,
    {
        "Dump memory region to file for offline analysis"
    }

    /// The bytes as one run of two-digit hexadecimal numbers.
    pub fn format_as_hex(data: &Vec<u8>) -> (r: String)
        ensures
            r@ == hex_joined(data@, Seq::empty()),
    {
        let mut s = String::new();
        proof {
            reveal_strlit("");
            assert(""@ =~= Seq::<char>::empty());
        }
        crate::bytes::push_hex_joined(&mut s, data, 0, data.len(), "");
        assert(data@.subrange(0, data@.len() as int) =~= data@);
        s
    }

    /// A hexdump of the bytes read from `base_address`, sixteen to a line.
    pub fn format_as_hexdump(data: &Vec<u8>, base_address: u64) -> (r: String)
        ensures
            r@ == hexdump(data@, base_address),
    {
        hexdump_text(data, base_address)
    }

    /// Reads the request: the address, size and file path (required), the
    /// format (`raw` by default) and whether an existing file may be
    /// replaced (`overwrite`, false by default).
    pub fn request(&self, args: &Arguments) -> (r: Result<DumpRequest, IncodeError>)
        ensures
            match as_text(lookup(args@, "address"@)) {
                None => r matches Err(IncodeError::McpProtocol(m)) && m@
                    == "Missing address parameter"@,
                Some(t) => match address_value(t) {
                    None => r matches Err(IncodeError::McpProtocol(m)) && m@
                        == "Invalid address format: "@ + t,
                    Some(a) => match (size_arg(args@), as_text(lookup(args@, "file_path"@))) {
                        (None, _) => r matches Err(IncodeError::McpProtocol(m)) && m@
                            == "Missing size parameter"@,
                        (Some(_), None) => r matches Err(IncodeError::McpProtocol(m)) && m@
                            == "Missing file_path parameter"@,
                        (Some(n), Some(p)) => r matches Ok(q) && q.address == a && q.size == n
                            && q.file_path@ == p && q.format@ == match as_text(
                            lookup(args@, "format"@),
                        ) {
                            Some(f) => f,
                            None => "raw"@,
                        } && q.overwrite == match as_boolean(lookup(args@, "overwrite"@)) {
                            Some(b) => b,
                            None => false,
                        },
                    },
                },
            },
    {
        let address = match read_address(args) {
            Ok(a) => a,
            Err(e) => {
                return Err(e);
            },
        };
        let size = match read_size(args) {
            Ok(n) => n,
            Err(e) => {
                return Err(e);
            },
        };
        let file_path = match arg_str(args, "file_path") {
            Some(p) => p,
            None => {
                return Err(IncodeError::mcp("Missing file_path parameter"));
            },
        };
        let format = arg_str_or(args, "format", "raw");
        let overwrite = arg_bool_or(args, "overwrite", false);
        Ok(DumpRequest { address, size, file_path, format, overwrite })
    }

    /// The answer given before any memory is read: a refusal to replace an
    /// existing file (`file_exists`) without `overwrite`, or to dump in an
    /// unknown format; nothing where the dump goes ahead.
    pub fn refusal(&self, q: &DumpRequest, file_exists: bool) -> (r: Option<ToolResponse>)
        ensures
            if file_exists && !q.overwrite {
                r matches Some(resp) && is_failure(
                    resp,
                    "File "@ + q.file_path@ + " already exists. Use overwrite=true to replace it."@,
                )
            } else if q.format@ == "raw"@ || q.format@ == "hex"@ || q.format@ == "hexdump"@ {
                r is None
            } else {
                r matches Some(resp) && is_failure(resp, "Unknown format: "@ + q.format@)
            },
    {
        if file_exists && !q.overwrite {
            let mut msg = String::new();
            push_str(&mut msg, "File ");
            push_str(&mut msg, q.file_path.as_str());
            push_str(&mut msg, " already exists. Use overwrite=true to replace it.");
            return Some(ToolResponse::Error(msg));
        }
        if str_eq(q.format.as_str(), "raw") || str_eq(q.format.as_str(), "hex") || str_eq(
            q.format.as_str(),
            "hexdump",
        ) {
            None
        } else {
            let mut msg = String::new();
            push_str(&mut msg, "Unknown format: ");
            push_str(&mut msg, q.format.as_str());
            Some(ToolResponse::Error(msg))
        }
    }

    /// The text written to the file for the `hex` and `hexdump` formats.
    pub fn content(&self, q: &DumpRequest, data: &Vec<u8>) -> (r: String)
        ensures
            r@ == if q.format@ == "hex"@ {
                hex_joined(data@, Seq::empty())
            } else {
                hexdump(data@, q.address)
            },
    {
        if str_eq(q.format.as_str(), "hex") {
            Self::format_as_hex(data)
        } else {
            Self::format_as_hexdump(data, q.address)
        }
    }

    /// The answer to a `raw` dump: how many bytes were written.
    pub fn respond_raw(&self, q: &DumpRequest, outcome: Result<usize, IncodeError>) -> (r:
        ToolResponse)
        ensures
            match outcome {
                Ok(n) => {
                    let es = json_entries(r);
                    &&& is_json_object(r, 7)
                    &&& has_text(es, 0, "address"@, hex_addr(q.address as nat))
                    &&& has_value(es, 1, "size_requested"@, Json::UInt(q.size as u64))
                    &&& has_value(es, 2, "bytes_written"@, Json::UInt(n as u64))
                    &&& has_text(es, 3, "file_path"@, q.file_path@)
                    &&& has_text(es, 4, "format"@, q.format@)
                    &&& has_value(es, 5, "success"@, Json::Bool(true))
                    &&& has_text(
                        es,
                        6,
                        "message"@,
                        "Dumped "@ + dec_str(n as nat) + " bytes from "@ + hex_addr(
                            q.address as nat,
                        ) + " to "@ + q.file_path@,
                    )
                },
                Err(e) => reports_error(r, e),
            },
    {
        match outcome {
            Ok(n) => {
                let mut msg = String::new();
                push_str(&mut msg, "Dumped ");
                push_dec(&mut msg, n as u64);
                push_str(&mut msg, " bytes from ");
                push_hex_address(&mut msg, q.address);
                push_str(&mut msg, " to ");
                push_str(&mut msg, q.file_path.as_str());
                let mut es: Vec<(String, Json)> = Vec::new();
                es.push(entry("address", Json::Str(address_text(q.address))));
                es.push(entry("size_requested", Json::UInt(q.size as u64)));
                es.push(entry("bytes_written", Json::UInt(n as u64)));
                es.push(entry("file_path", Json::Str(q.file_path.clone())));
                es.push(entry("format", Json::Str(q.format.clone())));
                es.push(entry("success", Json::Bool(true)));
                es.push(entry("message", Json::Str(msg)));
                ToolResponse::Json(Json::Object(es))
            },
            Err(e) => error_response(&e),
        }
    }

    /// The answer to a `hex` or `hexdump` dump: the outcome of reading the
    /// memory and, once it was read, the text of the error of writing the
    /// file, if any.
    pub fn respond_text(
        &self,
        q: &DumpRequest,
        outcome: Result<Vec<u8>, IncodeError>,
        write_error: Option<String>,
    ) -> (r: ToolResponse)
        ensures
            match outcome {
                Ok(data) => match write_error {
                    Some(e) => is_failure(r, "Failed to write file: "@ + e@),
                    None => {
                        let es = json_entries(r);
                        &&& is_json_object(r, 7)
                        &&& has_text(es, 0, "address"@, hex_addr(q.address as nat))
                        &&& has_value(es, 1, "size_requested"@, Json::UInt(q.size as u64))
                        &&& has_value(es, 2, "bytes_read"@, Json::UInt(data@.len() as u64))
                        &&& has_text(es, 3, "file_path"@, q.file_path@)
                        &&& has_text(es, 4, "format"@, q.format@)
                        &&& has_value(es, 5, "success"@, Json::Bool(true))
                        &&& has_text(
                            es,
                            6,
                            "message"@,
                            "Dumped "@ + dec_str(data@.len()) + " bytes from "@ + hex_addr(
                                q.address as nat,
                            ) + " to "@ + q.file_path@ + " in "@ + q.format@ + " format"@,
                        )
                    },
                },
                Err(e) => reports_error(r, e),
            },
    {
        match outcome {
            Ok(data) => match write_error {
                Some(e) => {
                    let mut msg = String::new();
                    push_str(&mut msg, "Failed to write file: ");
                    push_str(&mut msg, e.as_str());
                    ToolResponse::Error(msg)
                },
                None => {
                    let n = data.len();
                    let mut msg = String::new();
                    push_str(&mut msg, "Dumped ");
                    push_dec(&mut msg, n as u64);
                    push_str(&mut msg, " bytes from ");
                    push_hex_address(&mut msg, q.address);
                    push_str(&mut msg, " to ");
                    push_str(&mut msg, q.file_path.as_str());
                    push_str(&mut msg, " in ");
                    push_str(&mut msg, q.format.as_str());
                    push_str(&mut msg, " format");
                    let mut es: Vec<(String, Json)> = Vec::new();
                    es.push(entry("address", Json::Str(address_text(q.address))));
                    es.push(entry("size_requested", Json::UInt(q.size as u64)));
                    es.push(entry("bytes_read", Json::UInt(n as u64)));
                    es.push(entry("file_path", Json::Str(q.file_path.clone())));
                    es.push(entry("format", Json::Str(q.format.clone())));
                    es.push(entry("success", Json::Bool(true)));
                    es.push(entry("message", Json::Str(msg)));
                    ToolResponse::Json(Json::Object(es))
                },
            },
            Err(e) => error_response(&e),
        }
    }
}

/// A stand-in for the memory tools.
#[derive(Debug)]
pub struct PlaceholderTool;

impl PlaceholderTool {
    pub fn name(&self) -> (r: &'static str)
        ensures
            r@ == "memory_placeholder"@,
    {
        "memory_placeholder"
    }

    pub fn description(&self) -> (r: &'static str)
        ensures
            r@ == "Memory inspection placeholder - use specific memory tools instead"@,
    {
        "Memory inspection placeholder - use specific memory tools instead"
    }

    /// The answer, whatever the arguments: use the memory tools.
    pub fn execute(&self, args: &Arguments) -> (r: ToolResponse)
        ensures
            is_failure(r, "Use specific memory inspection tools like read_memory instead"@),
    {
        failure("Use specific memory inspection tools like read_memory instead")
    }
}

// ---------------------------------------------------------------------------
// memory_map
// ---------------------------------------------------------------------------

/// Text order: `a` comes no later than `b`, character by character.
pub open spec fn text_le(a: Seq<char>, b: Seq<char>) -> bool
    decreases a.len(),
{
    if a.len() == 0 {
        true
    } else if b.len() == 0 {
        false
    } else if (a[0] as u32) < (b[0] as u32) {
        true
    } else if (a[0] as u32) > (b[0] as u32) {
        false
    } else {
        text_le(a.drop_first(), b.drop_first())
    }
}

/// In the order `sort_by`, segment `a` may stand before segment `b`:
/// larger first (`size`), by name (`name`), or by address.
pub open spec fn seg_le(a: MemorySegment, b: MemorySegment, sort_by: Seq<char>) -> bool {
    if sort_by == "size"@ {
        a.vm_size >= b.vm_size
    } else if sort_by == "name"@ {
        text_le(a.name@, b.name@)
    } else {
        a.vm_address <= b.vm_address
    }
}

/// `x` put into `s` after the last segment that may stand before it, the
/// segments after that one moved up.
pub open spec fn insert_sorted(s: Seq<MemorySegment>, x: MemorySegment, sort_by: Seq<char>) -> Seq<
    MemorySegment,
>
    decreases s.len(),
{
    if s.len() == 0 {
        seq![x]
    } else if seg_le(s.last(), x, sort_by) {
        s.push(x)
    } else {
        insert_sorted(s.drop_last(), x, sort_by).push(s.last())
    }
}

/// The segments in the order `sort_by`, segments that compare equal kept
/// in their order (a stable sort).
pub open spec fn sorted_segments(s: Seq<MemorySegment>, sort_by: Seq<char>) -> Seq<MemorySegment>
    decreases s.len(),
{
    if s.len() == 0 {
        s
    } else {
        insert_sorted(sorted_segments(s.drop_last(), sort_by), s.last(), sort_by)
    }
}

proof fn lemma_insert_at(s: Seq<MemorySegment>, x: MemorySegment, sort_by: Seq<char>, j: int)
    requires
        0 <= j <= s.len(),
        forall|k: int| j <= k < s.len() ==> !seg_le(#[trigger] s[k], x, sort_by),
        j == 0 || seg_le(s[j - 1], x, sort_by),
    ensures
        insert_sorted(s, x, sort_by) == s.take(j) + seq![x] + s.skip(j),
    decreases s.len(),
{
    if s.len() == 0 {
        assert(s.take(j) + seq![x] + s.skip(j) =~= seq![x]);
    } else if seg_le(s.last(), x, sort_by) {
        assert(j == s.len());
        assert(s.take(j) + seq![x] + s.skip(j) =~= s.push(x));
    } else {
        let t = s.drop_last();
        assert(j < s.len());
        assert forall|k: int| j <= k < t.len() implies !seg_le(#[trigger] t[k], x, sort_by) by {
            assert(t[k] == s[k]);
        }
        lemma_insert_at(t, x, sort_by, j);
        assert((t.take(j) + seq![x] + t.skip(j)).push(s.last()) =~= s.take(j) + seq![x] + s.skip(
            j,
        ));
    }
}

proof fn lemma_text_le_total(a: Seq<char>, b: Seq<char>)
    ensures
        text_le(a, b) || text_le(b, a),
    decreases a.len(),
{
    if a.len() > 0 && b.len() > 0 && a[0] as u32 == b[0] as u32 {
        lemma_text_le_total(a.drop_first(), b.drop_first());
    }
}

proof fn lemma_text_le_trans(a: Seq<char>, b: Seq<char>, c: Seq<char>)
    requires
        text_le(a, b),
        text_le(b, c),
    ensures
        text_le(a, c),
    decreases a.len(),
{
    if a.len() > 0 && b.len() > 0 && c.len() > 0 && a[0] as u32 == b[0] as u32 && b[0] as u32
        == c[0] as u32 {
        lemma_text_le_trans(a.drop_first(), b.drop_first(), c.drop_first());
    }
}

/// Text order is the dictionary order of character codes: a text comes
/// before any longer text it begins, and where two texts first differ, the
/// one with the smaller character there comes first and the other does not.
pub proof fn law_text_order(a: Seq<char>, b: Seq<char>, i: int)
    ensures
        text_le(a, a + b),
        (0 <= i < a.len() && i < b.len() && (forall|k: int| 0 <= k < i ==> a[k] == b[k]) && (a[i]
            as u32) < (b[i] as u32)) ==> text_le(a, b) && !text_le(b, a),
    decreases a.len(),
{
    if a.len() > 0 {
        law_text_order(a.drop_first(), b, i - 1);
        assert((a + b).drop_first() =~= a.drop_first() + b);
        assert((a + b)[0] == a[0]);
        if 0 < i < a.len() && i < b.len() && (forall|k: int| 0 <= k < i ==> a[k] == b[k]) && (a[i]
            as u32) < (b[i] as u32) {
            assert(a[0] == b[0]);
            law_text_order(a.drop_first(), b.drop_first(), i - 1);
            assert forall|k: int| 0 <= k < i - 1 implies a.drop_first()[k] == b.drop_first()[k] by {
                assert(a[k + 1] == b[k + 1]);
            }
        }
    }
}

proof fn lemma_seg_le_total(a: MemorySegment, b: MemorySegment, sort_by: Seq<char>)
    ensures
        seg_le(a, b, sort_by) || seg_le(b, a, sort_by),
{
    lemma_text_le_total(a.name@, b.name@);
}

proof fn lemma_seg_le_trans(a: MemorySegment, b: MemorySegment, c: MemorySegment, sort_by: Seq<char>)
    requires
        seg_le(a, b, sort_by),
        seg_le(b, c, sort_by),
    ensures
        seg_le(a, c, sort_by),
{
    if sort_by != "size"@ && sort_by == "name"@ {
        lemma_text_le_trans(a.name@, b.name@, c.name@);
    }
}

/// `s` is in the order `sort_by`.
spec fn in_order(s: Seq<MemorySegment>, sort_by: Seq<char>) -> bool {
    forall|i: int, j: int| 0 <= i < j < s.len() ==> #[trigger] seg_le(s[i], s[j], sort_by)
}

proof fn lemma_insert_bounded(s: Seq<MemorySegment>, x: MemorySegment, sort_by: Seq<char>, m: MemorySegment)
    requires
        forall|k: int| 0 <= k < s.len() ==> seg_le(#[trigger] s[k], m, sort_by),
        seg_le(x, m, sort_by),
    ensures
        insert_sorted(s, x, sort_by).len() == s.len() + 1,
        forall|k: int|
            0 <= k < s.len() + 1 ==> seg_le(#[trigger] insert_sorted(s, x, sort_by)[k], m, sort_by),
    decreases s.len(),
{
    if s.len() > 0 && !seg_le(s.last(), x, sort_by) {
        let t = s.drop_last();
        assert forall|k: int| 0 <= k < t.len() implies seg_le(#[trigger] t[k], m, sort_by) by {
            assert(t[k] == s[k]);
        }
        lemma_insert_bounded(t, x, sort_by, m);
    }
}

proof fn lemma_insert_in_order(s: Seq<MemorySegment>, x: MemorySegment, sort_by: Seq<char>)
    requires
        in_order(s, sort_by),
    ensures
        in_order(insert_sorted(s, x, sort_by), sort_by),
    decreases s.len(),
{
    if s.len() == 0 {
    } else if seg_le(s.last(), x, sort_by) {
        let r = s.push(x);
        let top = s.last();
        assert forall|i: int, j: int| 0 <= i < j < r.len() implies #[trigger] seg_le(
            r[i],
            r[j],
            sort_by,
        ) by {
            assert(r[i] == s[i]);
            if j == s.len() {
                if i < s.len() - 1 {
                    assert(seg_le(s[i], s[s.len() - 1], sort_by));
                    lemma_seg_le_trans(s[i], top, x, sort_by);
                }
            } else {
                assert(r[j] == s[j]);
            }
        }
    } else {
        let t = s.drop_last();
        let top = s.last();
        lemma_seg_le_total(top, x, sort_by);
        assert(in_order(t, sort_by)) by {
            assert forall|i: int, j: int| 0 <= i < j < t.len() implies #[trigger] seg_le(
                t[i],
                t[j],
                sort_by,
            ) by {
                assert(t[i] == s[i] && t[j] == s[j]);
                assert(seg_le(s[i], s[j], sort_by));
            }
        }
        assert forall|k: int| 0 <= k < t.len() implies seg_le(#[trigger] t[k], top, sort_by) by {
            assert(t[k] == s[k] && top == s[s.len() - 1]);
            assert(seg_le(s[k], s[s.len() - 1], sort_by));
        }
        lemma_insert_in_order(t, x, sort_by);
        lemma_insert_bounded(t, x, sort_by, top);
        let u = insert_sorted(t, x, sort_by);
        let r = u.push(top);
        assert forall|i: int, j: int| 0 <= i < j < r.len() implies #[trigger] seg_le(
            r[i],
            r[j],
            sort_by,
        ) by {
            assert(r[i] == u[i]);
            if j < u.len() {
                assert(r[j] == u[j]);
                assert(seg_le(u[i], u[j], sort_by));
            } else {
                assert(seg_le(u[i], top, sort_by));
            }
        }
    }
}

proof fn lemma_sorted_in_order(s: Seq<MemorySegment>, sort_by: Seq<char>)
    ensures
        in_order(sorted_segments(s, sort_by), sort_by),
    decreases s.len(),
{
    if s.len() > 0 {
        lemma_sorted_in_order(s.drop_last(), sort_by);
        lemma_insert_in_order(sorted_segments(s.drop_last(), sort_by), s.last(), sort_by);
    }
}

proof fn lemma_insert_same_segments(s: Seq<MemorySegment>, x: MemorySegment, sort_by: Seq<char>)
    ensures
        insert_sorted(s, x, sort_by).to_multiset() =~= s.to_multiset().insert(x),
    decreases s.len(),
{
    broadcast use vstd::seq_lib::group_to_multiset_ensures;

    if s.len() == 0 {
        assert(seq![x] =~= s.push(x));
    } else if !seg_le(s.last(), x, sort_by) {
        let t = s.drop_last();
        lemma_insert_same_segments(t, x, sort_by);
        assert(t.push(s.last()) =~= s);
    }
}

/// Sorting the segments, in any order, neither adds, drops nor repeats one:
/// the sorted list holds the same segments as many times each.
pub proof fn law_sorted_segments_same_segments(s: Seq<MemorySegment>, sort_by: Seq<char>)
    ensures
        sorted_segments(s, sort_by).to_multiset() =~= s.to_multiset(),
        sorted_segments(s, sort_by).len() == s.len(),
    decreases s.len(),
{
    broadcast use vstd::seq_lib::group_to_multiset_ensures;

    if s.len() > 0 {
        let t = s.drop_last();
        law_sorted_segments_same_segments(t, sort_by);
        lemma_insert_same_segments(sorted_segments(t, sort_by), s.last(), sort_by);
        assert(t.push(s.last()) =~= s);
    }
    assert(sorted_segments(s, sort_by).to_multiset().len() == s.to_multiset().len());
}

/// Sorting by size puts the largest segments first: along the sorted list
/// the sizes never grow.
pub proof fn law_size_order_largest_first(s: Seq<MemorySegment>)
    ensures
        forall|i: int, j: int|
            0 <= i < j < sorted_segments(s, "size"@).len() ==> sorted_segments(s, "size"@)[i].vm_size
                >= sorted_segments(s, "size"@)[j].vm_size,
{
    lemma_sorted_in_order(s, "size"@);
    let r = sorted_segments(s, "size"@);
    assert forall|i: int, j: int| 0 <= i < j < r.len() implies r[i].vm_size >= r[j].vm_size by {
        assert(seg_le(r[i], r[j], "size"@));
    }
}

/// Sorting by name puts the segments in text order of their names.
pub proof fn law_name_order(s: Seq<MemorySegment>)
    ensures
        forall|i: int, j: int|
            0 <= i < j < sorted_segments(s, "name"@).len() ==> text_le(
                sorted_segments(s, "name"@)[i].name@,
                sorted_segments(s, "name"@)[j].name@,
            ),
{
    reveal_strlit("size");
    reveal_strlit("name");
    assert("size"@[0] != "name"@[0]);
    lemma_sorted_in_order(s, "name"@);
    let r = sorted_segments(s, "name"@);
    assert forall|i: int, j: int| 0 <= i < j < r.len() implies text_le(r[i].name@, r[j].name@) by {
        assert(seg_le(r[i], r[j], "name"@));
    }
}

/// Sorting by address (any order but `size` and `name`, the default)
/// puts the segments in ascending address order.
pub proof fn law_address_order_ascending(s: Seq<MemorySegment>, sort_by: Seq<char>)
    requires
        sort_by != "size"@,
        sort_by != "name"@,
    ensures
        forall|i: int, j: int|
            0 <= i < j < sorted_segments(s, sort_by).len() ==> sorted_segments(s, sort_by)[i].vm_address
                <= sorted_segments(s, sort_by)[j].vm_address,
{
    lemma_sorted_in_order(s, sort_by);
    let r = sorted_segments(s, sort_by);
    assert forall|i: int, j: int| 0 <= i < j < r.len() implies r[i].vm_address <= r[j].vm_address by {
        assert(seg_le(r[i], r[j], sort_by));
    }
}

fn text_le_exec(a: &str, b: &str) -> (r: bool)
    ensures
        r == text_le(a@, b@),
{
    let av = chars_of(a);
    let bv = chars_of(b);
    let mut i: usize = 0;
    assert(av@.skip(0) =~= av@ && bv@.skip(0) =~= bv@);
    loop
        invariant
            i <= av@.len(),
            i <= bv@.len(),
            text_le(a@, b@) == text_le(av@.skip(i as int), bv@.skip(i as int)),
            av@ == a@,
            bv@ == b@,
        decreases av@.len() - i,
    {
        let ghost sa = av@.skip(i as int);
        let ghost sb = bv@.skip(i as int);
        if i == av.len() {
            return true;
        }
        if i == bv.len() {
            return false;
        }
        assert(sa[0] == av@[i as int] && sb[0] == bv@[i as int]);
        let x = av[i] as u32;
        let y = bv[i] as u32;
        if x < y {
            return true;
        }
        if x > y {
            return false;
        }
        assert(sa.drop_first() =~= av@.skip(i + 1));
        assert(sb.drop_first() =~= bv@.skip(i + 1));
        i = i + 1;
    }
}

fn seg_le_exec(a: &MemorySegment, b: &MemorySegment, sort_by: &str) -> (r: bool)
    ensures
        r == seg_le(*a, *b, sort_by@),
{
    if str_eq(sort_by, "size") {
        a.vm_size >= b.vm_size
    } else if str_eq(sort_by, "name") {
        text_le_exec(a.name.as_str(), b.name.as_str())
    } else {
        a.vm_address <= b.vm_address
    }
}

/// The segments in the order `sort_by`: by size, largest first
/// (`size`), by name (`name`), or by address; segments that compare equal
/// keep their order.
pub fn sort_segments(segments: Vec<MemorySegment>, sort_by: &str) -> (r: Vec<MemorySegment>)
    ensures
        r@ == sorted_segments(segments@, sort_by@),
{
    let ghost orig = segments@;
    let mut rest = segments;
    let mut out: Vec<MemorySegment> = Vec::new();
    let ghost mut k: int = 0;
    assert(orig.take(0) =~= Seq::<MemorySegment>::empty());
    while rest.len() > 0
        invariant
            0 <= k <= orig.len(),
            rest@ =~= orig.subrange(k, orig.len() as int),
            out@ == sorted_segments(orig.take(k), sort_by@),
        decreases rest.len(),
    {
        let x = rest.remove(0);
        assert(orig.take(k + 1).drop_last() =~= orig.take(k));
        assert(orig.take(k + 1).last() == x);
        let mut j = out.len();
        while j > 0 && !seg_le_exec(&out[j - 1], &x, sort_by)
            invariant
                j <= out@.len(),
                forall|m: int| j <= m < out@.len() ==> !seg_le(#[trigger] out@[m], x, sort_by@),
            decreases j,
        {
            j = j - 1;
        }
        proof {
            lemma_insert_at(out@, x, sort_by@, j as int);
            assert(out@.insert(j as int, x) =~= out@.take(j as int) + seq![x] + out@.skip(j as int));
        }
        out.insert(j, x);
        proof {
            k = k + 1;
        }
    }
    assert(orig.take(k) =~= orig);
    out
}

/// `v` describes the segment `g` in full.
pub open spec fn is_segment_json(v: Json, g: MemorySegment) -> bool {
    v matches Json::Object(es) && {
        let es = es@;
        &&& es.len() == 14
        &&& has_text(es, 0, "name"@, g.name@)
        &&& has_text(es, 1, "type"@, g.segment_type@)
        &&& has_text(es, 2, "vm_address"@, hex_addr(g.vm_address as nat))
        &&& has_text(
            es,
            3,
            "vm_end"@,
            hex_addr(((g.vm_address + g.vm_size) % 0x1_0000_0000_0000_0000) as nat),
        )
        &&& has_value(es, 4, "vm_size"@, Json::UInt(g.vm_size))
        &&& has_value(es, 5, "vm_size_kb"@, Json::UInt(g.vm_size / 1024))
        &&& has_value(es, 6, "vm_size_mb"@, Json::UInt(g.vm_size / 1048576u64))
        &&& has_text(es, 7, "file_offset"@, hex_addr(g.file_offset as nat))
        &&& has_value(es, 8, "file_size"@, Json::UInt(g.file_size))
        &&& has_text(es, 9, "max_protection"@, g.max_protection@)
        &&& has_text(es, 10, "initial_protection"@, g.initial_protection@)
        &&& has_value(es, 11, "readable"@, Json::Bool(g.max_protection@.contains('r')))
        &&& has_value(es, 12, "writable"@, Json::Bool(g.max_protection@.contains('w')))
        &&& has_value(es, 13, "executable"@, Json::Bool(g.max_protection@.contains('x')))
    }
}

/// The line that describes the segment `g`: name, bounds, size in
/// kilobytes and protection (`summary`), or its address alone.
pub open spec fn segment_text(g: MemorySegment, format: Seq<char>) -> Seq<char> {
    if format == "summary"@ {
        g.name@ + ": "@ + hex_addr(g.vm_address as nat) + "-"@ + hex_addr(
            ((g.vm_address + g.vm_size) % 0x1_0000_0000_0000_0000) as nat,
        ) + " ("@ + dec_str((g.vm_size / 1024) as nat) + "KB) "@ + g.max_protection@
    } else {
        hex_addr(g.vm_address as nat)
    }
}

/// `v` is the overview of the map `m`.
pub open spec fn is_overview(v: Json, m: MemoryMap, with_mb: bool) -> bool {
    v matches Json::Object(es) && {
        let es = es@;
        &&& es.len() == if with_mb {
            5int
        } else {
            4int
        }
        &&& has_text(es, 0, "load_address"@, hex_addr(m.load_address as nat))
        &&& has_value(es, 1, "total_segments"@, Json::UInt(m.total_segments as u64))
        &&& has_value(es, 2, "total_vm_size"@, Json::UInt(m.total_vm_size))
        &&& if with_mb {
            has_value(es, 3, "total_vm_size_mb"@, Json::UInt(m.total_vm_size / 1048576u64))
                && has_value(es, 4, "aslr_slide"@, Json::UInt(m.slide))
        } else {
            has_value(es, 3, "aslr_slide"@, Json::UInt(m.slide))
        }
    }
}

/// `j` describes the segments `segs` of the map `m` in the format
/// `format`: lines (`summary`, `addresses_only`), or the map's overview
/// and each segment in full.
pub open spec fn is_formatted_map(j: Json, segs: Seq<MemorySegment>, format: Seq<char>, m: MemoryMap) -> bool {
    if format == "summary"@ || format == "addresses_only"@ {
        is_text_array(j, Seq::new(segs.len(), |i: int| segment_text(segs[i], format)))
    } else {
        j matches Json::Object(es) && es@.len() == 2 && es@[0].0@ == "overview"@ && is_overview(
            es@[0].1,
            m,
            false,
        ) && es@[1].0@ == "segments"@ && (es@[1].1 matches Json::Array(items) && items@.len()
            == segs.len() && forall|i: int|
            0 <= i < segs.len() ==> is_segment_json(#[trigger] items@[i], segs[i]))
    }
}

fn segment_json(g: &MemorySegment) -> (v: Json)
    ensures
        is_segment_json(v, *g),
{
    let mut es: Vec<(String, Json)> = Vec::new();
    es.push(entry("name", Json::Str(g.name.clone())));
    es.push(entry("type", Json::Str(g.segment_type.clone())));
    es.push(entry("vm_address", Json::Str(address_text(g.vm_address))));
    es.push(entry("vm_end", Json::Str(address_text(g.vm_address.wrapping_add(g.vm_size)))));
    es.push(entry("vm_size", Json::UInt(g.vm_size)));
    es.push(entry("vm_size_kb", Json::UInt(g.vm_size / 1024)));
    es.push(entry("vm_size_mb", Json::UInt(g.vm_size / 1048576u64)));
    es.push(entry("file_offset", Json::Str(address_text(g.file_offset))));
    es.push(entry("file_size", Json::UInt(g.file_size)));
    es.push(entry("max_protection", Json::Str(g.max_protection.clone())));
    es.push(entry("initial_protection", Json::Str(g.initial_protection.clone())));
    es.push(entry("readable", Json::Bool(has_char(g.max_protection.as_str(), 'r'))));
    es.push(entry("writable", Json::Bool(has_char(g.max_protection.as_str(), 'w'))));
    es.push(entry("executable", Json::Bool(has_char(g.max_protection.as_str(), 'x'))));
    Json::Object(es)
}

fn segment_text_of(g: &MemorySegment, format: &str) -> (s: String)
    ensures
        s@ == segment_text(*g, format@),
{
    let mut s = String::new();
    if str_eq(format, "summary") {
        push_str(&mut s, g.name.as_str());
        push_str(&mut s, ": ");
        push_hex_address(&mut s, g.vm_address);
        push_str(&mut s, "-");
        push_hex_address(&mut s, g.vm_address.wrapping_add(g.vm_size));
        push_str(&mut s, " (");
        push_dec(&mut s, g.vm_size / 1024);
        push_str(&mut s, "KB) ");
        push_str(&mut s, g.max_protection.as_str());
    } else {
        push_hex_address(&mut s, g.vm_address);
    }
    s
}

fn overview(m: &MemoryMap, with_mb: bool) -> (v: Json)
    ensures
        is_overview(v, *m, with_mb),
{
    let mut es: Vec<(String, Json)> = Vec::new();
    es.push(entry("load_address", Json::Str(address_text(m.load_address))));
    es.push(entry("total_segments", Json::UInt(m.total_segments as u64)));
    es.push(entry("total_vm_size", Json::UInt(m.total_vm_size)));
    if with_mb {
        es.push(entry("total_vm_size_mb", Json::UInt(m.total_vm_size / 1048576u64)));
    }
    es.push(entry("aslr_slide", Json::UInt(m.slide)));
    Json::Object(es)
}

/// A segment passes the filter where it names the filter in its type or
/// its name.
pub open spec fn segment_listed(g: MemorySegment, filter: Seq<char>) -> bool {
    has_substr(g.segment_type@, filter) || has_substr(g.name@, filter)
}

/// The options of a memory map.
#[derive(Debug)]
pub struct MapOptions {
    pub include_segments: bool,
    pub filter_type: String,
    pub format: String,
    pub sort_by: String,
}

/// Describes the memory map of the process.
#[derive(Debug)]
pub struct MemoryMapTool;

impl MemoryMapTool {
    pub fn name(&self) -> (r: &'static str)
        ensures
            r@ == "memory_map"@,
    {
        "memory_map"
    }

    pub fn description(&self) -> (r: &'static str)
        ensures
            r@ == "Get detailed memory map with segments, load addresses, and ASLR information"@,
    {
        "Get detailed memory map with segments, load addresses, and ASLR information"
    }

    /// Whether segments are described (`include_segments`, true by
    /// default), the segment filter (`filter_type`, empty by default), the
    /// format (`format`, `detailed` by default) and the order (`sort_by`,
    /// `address` by default).
    pub fn options(&self, args: &Arguments) -> (r: MapOptions)
        ensures
            r.include_segments == match as_boolean(lookup(args@, "include_segments"@)) {
                Some(b) => b,
                None => true,
            },
            r.filter_type@ == match as_text(lookup(args@, "filter_type"@)) {
                Some(t) => t,
                None => Seq::empty(),
            },
            r.format@ == match as_text(lookup(args@, "format"@)) {
                Some(t) => t,
                None => "detailed"@,
            },
            r.sort_by@ == match as_text(lookup(args@, "sort_by"@)) {
                Some(t) => t,
                None => "address"@,
            },
    {
        proof {
            reveal_strlit("");
        }
        MapOptions {
            include_segments: arg_bool_or(args, "include_segments", true),
            filter_type: arg_str_or(args, "filter_type", ""),
            format: arg_str_or(args, "format", "detailed"),
            sort_by: arg_str_or(args, "sort_by", "address"),
        }
    }

    /// The segments of `map` in the format `format`.
    pub fn format_memory_map(segments: &Vec<MemorySegment>, format: &str, map: &MemoryMap) -> (r: Json)
        ensures
            is_formatted_map(r, segments@, format@, *map),
    {
        let lines = str_eq(format, "summary") || str_eq(format, "addresses_only");
        if lines {
            let ghost expected = Seq::new(
                segments@.len(),
                |i: int| segment_text(segments@[i], format@),
            );
            let mut out: Vec<String> = Vec::new();
            let mut i: usize = 0;
            while i < segments.len()
                invariant
                    i <= segments@.len(),
                    expected == Seq::new(
                        segments@.len(),
                        |i: int| segment_text(segments@[i], format@),
                    ),
                    views(out@) =~= expected.take(i as int),
                decreases segments@.len() - i,
            {
                let ghost before = out@;
                out.push(segment_text_of(&segments[i], format));
                assert(views(out@) =~= views(before).push(expected[i as int]));
                assert(expected.take(i + 1) =~= expected.take(i as int).push(expected[i as int]));
                i = i + 1;
            }
            assert(expected.take(segments@.len() as int) =~= expected);
            text_array(&out)
        } else {
            let mut items: Vec<Json> = Vec::new();
            let mut i: usize = 0;
            while i < segments.len()
                invariant
                    i <= segments@.len(),
                    items@.len() == i,
                    forall|k: int| 0 <= k < i ==> is_segment_json(#[trigger] items@[k], segments@[k]),
                decreases segments@.len() - i,
            {
                items.push(segment_json(&segments[i]));
                i = i + 1;
            }
            let mut es: Vec<(String, Json)> = Vec::new();
            es.push(entry("overview", overview(map, false)));
            es.push(entry("segments", Json::Array(items)));
            Json::Object(es)
        }
    }

    /// The overview of `map` alone.
    pub fn format_summary_only(map: &MemoryMap) -> (r: Json)
        ensures
            is_overview(r, *map, true),
    {
        overview(map, true)
    }

    /// The answer: the map's totals and the segments that pass the filter,
    /// in the order and format asked for.
    pub fn respond(&self, o: &MapOptions, outcome: Result<MemoryMap, IncodeError>) -> (r: ToolResponse)
        ensures
            match outcome {
                Ok(map) => {
                    let kept = if o.filter_type@.len() == 0 {
                        map.segments@
                    } else {
                        map.segments@.filter(|g: MemorySegment| segment_listed(g, o.filter_type@))
                    };
                    let segs = sorted_segments(kept, o.sort_by@);
                    let es = json_entries(r);
                    &&& is_json_object(r, 12)
                    &&& has_value(es, 0, "total_segments"@, Json::UInt(map.total_segments as u64))
                    &&& has_value(es, 1, "total_vm_size"@, Json::UInt(map.total_vm_size))
                    &&& has_value(
                        es,
                        2,
                        "total_vm_size_mb"@,
                        Json::UInt(map.total_vm_size / 1048576u64),
                    )
                    &&& has_text(es, 3, "load_address"@, hex_addr(map.load_address as nat))
                    &&& has_value(es, 4, "aslr_slide"@, Json::UInt(map.slide))
                    &&& has_value(es, 5, "filtered_segments"@, Json::UInt(segs.len() as u64))
                    &&& has_value(es, 6, "filter_applied"@, Json::Bool(o.filter_type@.len() > 0))
                    &&& has_text(es, 7, "filter_type"@, o.filter_type@)
                    &&& has_text(es, 8, "format"@, o.format@)
                    &&& has_text(es, 9, "sort_by"@, o.sort_by@)
                    &&& es[10].0@ == "segments"@ && if o.include_segments {
                        is_formatted_map(es[10].1, segs, o.format@, map)
                    } else {
                        is_overview(es[10].1, map, true)
                    }
                    &&& has_text(
                        es,
                        11,
                        "message"@,
                        "Memory map contains "@ + dec_str(map.total_segments as nat)
                            + " segments ("@ + dec_str(segs.len()) + " after filtering)"@,
                    )
                },
                Err(e) => reports_error(r, e),
            },
    {
        match outcome {
            Ok(map) => {
                let filtering = o.filter_type.as_str().unicode_len() > 0;
                let mut kept: Vec<MemorySegment> = Vec::new();
                let ghost orig = map.segments@;
                let ghost keep = |g: MemorySegment| segment_listed(g, o.filter_type@);
                let MemoryMap { total_segments, total_vm_size, segments, load_address, slide } = map;
                let mut rest = segments;
                let ghost mut k: int = 0;
                assert(orig.take(0) =~= Seq::<MemorySegment>::empty());
                proof {
                    reveal(Seq::filter);
                }
                while rest.len() > 0
                    invariant
                        0 <= k <= orig.len(),
                        rest@ =~= orig.subrange(k, orig.len() as int),
                        filtering == (o.filter_type@.len() > 0),
                        keep == (|g: MemorySegment| segment_listed(g, o.filter_type@)),
                        kept@ == if filtering {
                            orig.take(k).filter(keep)
                        } else {
                            orig.take(k)
                        },
                    decreases rest.len(),
                {
                    let g = rest.remove(0);
                    proof {
                        assert(orig.take(k + 1).drop_last() =~= orig.take(k));
                        assert(orig.take(k + 1).last() == g);
                        reveal(Seq::filter);
                    }
                    if !filtering || str_contains(g.segment_type.as_str(), o.filter_type.as_str())
                        || str_contains(g.name.as_str(), o.filter_type.as_str()) {
                        kept.push(g);
                    }
                    proof {
                        k = k + 1;
                    }
                }
                assert(orig.take(k) =~= orig);
                let segs = sort_segments(kept, o.sort_by.as_str());
                let n = segs.len();
                let whole = MemoryMap {
                    total_segments,
                    total_vm_size,
                    segments: Vec::new(),
                    load_address,
                    slide,
                };
                let formatted = if o.include_segments {
                    Self::format_memory_map(&segs, o.format.as_str(), &whole)
                } else {
                    Self::format_summary_only(&whole)
                };
                let mut msg = String::new();
                push_str(&mut msg, "Memory map contains ");
                push_dec(&mut msg, total_segments as u64);
                push_str(&mut msg, " segments (");
                push_dec(&mut msg, n as u64);
                push_str(&mut msg, " after filtering)");
                let mut es: Vec<(String, Json)> = Vec::new();
                es.push(entry("total_segments", Json::UInt(total_segments as u64)));
                es.push(entry("total_vm_size", Json::UInt(total_vm_size)));
                es.push(entry("total_vm_size_mb", Json::UInt(total_vm_size / 1048576u64)));
                es.push(entry("load_address", Json::Str(address_text(load_address))));
                es.push(entry("aslr_slide", Json::UInt(slide)));
                es.push(entry("filtered_segments", Json::UInt(n as u64)));
                es.push(entry("filter_applied", Json::Bool(filtering)));
                es.push(entry("filter_type", Json::Str(o.filter_type.clone())));
                es.push(entry("format", Json::Str(o.format.clone())));
                es.push(entry("sort_by", Json::Str(o.sort_by.clone())));
                es.push(entry("segments", formatted));
                es.push(entry("message", Json::Str(msg)));
                ToolResponse::Json(Json::Object(es))
            },
            Err(e) => error_response(&e),
        }
    }
}

} // verus!
