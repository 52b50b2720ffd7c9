//! The codec for the streaming extensions of a physical plan: placeholder
//! memory sources and unnest nodes, each written as a small protobuf
//! envelope, and the choice of what a decoded placeholder reads from.

use crate::error::ErrorKind;
use crate::error::PlanError;
use crate::schema_text::describe_json_error;
use crate::schema_text::json_schema_fields;
use crate::schema_text::parse_schema_fields;
use crate::schema_text::utf8_to_string;
use crate::text::same_text;
use crate::wire::decode_key;
use crate::wire::decode_varint;
use crate::wire::encode_varint;
use crate::wire::lemma_varint_roundtrip;
use crate::wire::parse_key;
use crate::wire::parse_varint;
use crate::wire::varint_bytes;
use crate::wire::WireType;
use crate::wire::KEY_FIELD_1;
use crate::wire::KEY_FIELD_2;
use vstd::prelude::*;
use vstd::slice::slice_subrange;
use vstd::string::*;
use vstd::utf8::*;

verus! {

/// The serialized form of one streaming extension of a physical plan.
#[derive(Debug, PartialEq, Eq)]
pub enum ExecNode {
    /// A placeholder source, named by the table it stands for.
    MemExec { table_name: String, schema: String },
    /// An unnest over the decoder's first input.
    UnnestExec { schema: String },
}

pub enum ExecNodeView {
    MemExec { table_name: Seq<char>, schema: Seq<char> },
    UnnestExec { schema: Seq<char> },
}

impl View for ExecNode {
    type V = ExecNodeView;

    open spec fn view(&self) -> ExecNodeView {
        match self {
            ExecNode::MemExec { table_name, schema } => ExecNodeView::MemExec {
                table_name: table_name@,
                schema: schema@,
            },
            ExecNode::UnnestExec { schema } => ExecNodeView::UnnestExec { schema: schema@ },
        }
    }
}

impl ExecNodeView {
    /// The JSON text of the node's batch schema.
    pub open spec fn schema_text(self) -> Seq<char> {
        match self {
            ExecNodeView::MemExec { schema, .. } => schema,
            ExecNodeView::UnnestExec { schema } => schema,
        }
    }
}

// ---------------------------------------------------------------------------
// The format
// ---------------------------------------------------------------------------

/// A text field as it is written: nothing for the empty text, else the key,
/// the byte length and the UTF-8 bytes.
pub open spec fn text_field_bytes(key: u8, text: Seq<char>) -> Seq<u8> {
    if text.len() == 0 {
        Seq::empty()
    } else {
        seq![key] + varint_bytes(encode_utf8(text).len()) + encode_utf8(text)
    }
}

/// The body of a node: its text fields in tag order.
pub open spec fn node_body_bytes(node: ExecNodeView) -> Seq<u8> {
    match node {
        ExecNodeView::MemExec { table_name, schema } => text_field_bytes(KEY_FIELD_1, table_name)
            + text_field_bytes(KEY_FIELD_2, schema),
        ExecNodeView::UnnestExec { schema } => text_field_bytes(KEY_FIELD_1, schema),
    }
}

/// The key under which the envelope holds a node of this kind.
pub open spec fn node_key(node: ExecNodeView) -> u8 {
    match node {
        ExecNodeView::MemExec { .. } => KEY_FIELD_1,
        ExecNodeView::UnnestExec { .. } => KEY_FIELD_2,
    }
}

/// The envelope of a node: the key of its kind, then the length-prefixed body.
pub open spec fn exec_node_bytes(node: ExecNodeView) -> Seq<u8> {
    seq![node_key(node)] + varint_bytes(node_body_bytes(node).len()) + node_body_bytes(node)
}

/// A length-prefixed payload at the front of `s`: the payload and the number
/// of bytes that prefix and payload take together.
pub open spec fn parse_delimited(s: Seq<u8>) -> Option<(Seq<u8>, nat)> {
    match parse_varint(s) {
        Some((len, n)) => if n + len <= s.len() {
            Some((s.subrange(n as int, (n + len) as int), n + len))
        } else {
            None
        },
        None => None,
    }
}

/// A length-prefixed UTF-8 text at the front of `s`.
pub open spec fn parse_text(s: Seq<u8>) -> Option<(Seq<char>, nat)> {
    match parse_delimited(s) {
        Some((payload, n)) => if valid_utf8(payload) {
            Some((decode_utf8(payload), n))
        } else {
            None
        },
        None => None,
    }
}

/// How deep groups may be nested inside a field that is skipped at the top
/// of an envelope.
pub const ENVELOPE_DEPTH: u32 = 100;

/// How deep groups may be nested inside a field that is skipped inside a
/// node.
pub const NODE_DEPTH: u32 = 99;

/// The number of bytes that the payload of a field no reader knows takes at
/// the front of `s`. A group runs to the key that ends it and may hold
/// groups of its own, `depth` levels deep at most.
pub open spec fn skipped_len(wire_type: WireType, tag: nat, s: Seq<u8>, depth: nat) -> Option<nat>
    decreases s.len(), 1nat,
{
    if depth == 0 {
        None
    } else {
        match wire_type {
            WireType::Varint => match parse_varint(s) {
                Some((_, n)) => Some(n),
                None => None,
            },
            WireType::SixtyFourBit => if s.len() >= 8 {
                Some(8nat)
            } else {
                None
            },
            WireType::ThirtyTwoBit => if s.len() >= 4 {
                Some(4nat)
            } else {
                None
            },
            WireType::LengthDelimited => match parse_delimited(s) {
                Some((_, n)) => Some(n),
                None => None,
            },
            WireType::StartGroup => skipped_group(tag, s, depth),
            WireType::EndGroup => None,
        }
    }
}

/// The number of bytes at the front of `s` that the rest of the group of
/// field `tag` takes: fields, each skipped in turn, up to and with the key
/// that ends the group.
pub open spec fn skipped_group(tag: nat, s: Seq<u8>, depth: nat) -> Option<nat>
    decreases s.len(), 0nat,
{
    match parse_key(s) {
        None => None,
        Some((inner_tag, inner_type, n)) => {
            if inner_type == WireType::EndGroup {
                if inner_tag == tag {
                    Some(n)
                } else {
                    None
                }
            } else if depth == 0 || !(1 <= n <= s.len()) {
                None
            } else {
                match skipped_len(inner_type, inner_tag, s.skip(n as int), (depth - 1) as nat) {
                    None => None,
                    Some(m) => if n + m > s.len() {
                        None
                    } else {
                        match skipped_group(tag, s.skip((n + m) as int), depth) {
                            None => None,
                            Some(rest) => Some(n + m + rest),
                        }
                    },
                }
            }
        },
    }
}

/// Reads one field of a message whose fields `1..=fields.len()` are texts:
/// the number of bytes the field takes and the text fields after it. A text
/// field replaces what its slot held; any other field is skipped.
pub open spec fn text_fields_step(s: Seq<u8>, fields: Seq<Seq<char>>) -> Option<
    (nat, Seq<Seq<char>>),
> {
    match parse_key(s) {
        None => None,
        Some((tag, wire_type, n)) => {
            if tag <= fields.len() {
                if wire_type != WireType::LengthDelimited {
                    None
                } else {
                    match parse_text(s.skip(n as int)) {
                        None => None,
                        Some((text, m)) => Some((n + m, fields.update(tag - 1, text))),
                    }
                }
            } else {
                match skipped_len(wire_type, tag, s.skip(n as int), NODE_DEPTH as nat) {
                    None => None,
                    Some(m) => Some((n + m, fields)),
                }
            }
        },
    }
}

/// Reads the body of a message whose fields `1..=fields.len()` are texts,
/// starting from `fields`, field by field to the end of `s`.
pub open spec fn parse_text_fields(s: Seq<u8>, fields: Seq<Seq<char>>) -> Option<Seq<Seq<char>>>
    decreases s.len(),
{
    if s.len() == 0 {
        Some(fields)
    } else {
        match text_fields_step(s, fields) {
            Some((n, next)) => if 1 <= n <= s.len() {
                parse_text_fields(s.skip(n as int), next)
            } else {
                None
            },
            None => None,
        }
    }
}

/// The text fields that a node of the given kind starts from when the
/// envelope names that kind: those of the node read so far if it is of the
/// same kind, else empty ones.
pub open spec fn starting_fields(tag: nat, so_far: Option<ExecNodeView>) -> Seq<Seq<char>> {
    if tag == 1 {
        match so_far {
            Some(ExecNodeView::MemExec { table_name, schema }) => seq![table_name, schema],
            _ => seq![Seq::empty(), Seq::empty()],
        }
    } else {
        match so_far {
            Some(ExecNodeView::UnnestExec { schema }) => seq![schema],
            _ => seq![Seq::empty()],
        }
    }
}

/// The node of the kind that `tag` names, with the given text fields.
pub open spec fn node_of_fields(tag: nat, fields: Seq<Seq<char>>) -> ExecNodeView {
    if tag == 1 {
        ExecNodeView::MemExec { table_name: fields[0], schema: fields[1] }
    } else {
        ExecNodeView::UnnestExec { schema: fields[0] }
    }
}

/// Reads one field of an envelope: the number of bytes it takes and the
/// node after it. Field 1 holds a placeholder source and field 2 an unnest;
/// a node of the kind read before is merged field by field, one of the other
/// kind starts afresh, and any other field is skipped.
pub open spec fn envelope_step(s: Seq<u8>, so_far: Option<ExecNodeView>) -> Option<
    (nat, Option<ExecNodeView>),
> {
    match parse_key(s) {
        None => None,
        Some((tag, wire_type, n)) => {
            if tag == 1 || tag == 2 {
                if wire_type != WireType::LengthDelimited {
                    None
                } else {
                    match parse_delimited(s.skip(n as int)) {
                        None => None,
                        Some((body, m)) => match parse_text_fields(
                            body,
                            starting_fields(tag, so_far),
                        ) {
                            None => None,
                            Some(fields) => Some((n + m, Some(node_of_fields(tag, fields)))),
                        },
                    }
                }
            } else {
                match skipped_len(wire_type, tag, s.skip(n as int), ENVELOPE_DEPTH as nat) {
                    None => None,
                    Some(m) => Some((n + m, so_far)),
                }
            }
        },
    }
}

/// Reads an envelope, starting from the node `so_far`, field by field to the
/// end of `s`. `None` where the bytes are no envelope; `Some(None)` where
/// they are one that holds no node.
pub open spec fn parse_envelope(s: Seq<u8>, so_far: Option<ExecNodeView>) -> Option<
    Option<ExecNodeView>,
>
    decreases s.len(),
{
    if s.len() == 0 {
        Some(so_far)
    } else {
        match envelope_step(s, so_far) {
            Some((n, next)) => if 1 <= n <= s.len() {
                parse_envelope(s.skip(n as int), next)
            } else {
                None
            },
            None => None,
        }
    }
}

/// Reads a whole envelope.
pub open spec fn parse_exec_node(s: Seq<u8>) -> Option<Option<ExecNodeView>> {
    parse_envelope(s, None)
}

// ---------------------------------------------------------------------------
// Writing
// ---------------------------------------------------------------------------

fn append_bytes(buf: &mut Vec<u8>, bytes: &[u8])
    ensures
        final(buf)@ == old(buf)@ + bytes@,
{
    let mut i: usize = 0;
    while i < bytes.len()
        invariant
            i <= bytes.len(),
            buf@ == old(buf)@ + bytes@.subrange(0, i as int),
        decreases bytes.len() - i,
    {
        buf.push(bytes[i]);
        i += 1;
        assert(buf@ =~= old(buf)@ + bytes@.subrange(0, i as int));
    }
    assert(bytes@.subrange(0, i as int) =~= bytes@);
}

fn encode_text_field(key: u8, text: &str, buf: &mut Vec<u8>)
    ensures
        final(buf)@ == old(buf)@ + text_field_bytes(key, text@),
{
    if !text.is_empty() {
        let bytes = text.as_bytes();
        buf.push(key);
        encode_varint(bytes.len() as u64, buf);
        append_bytes(buf, bytes);
        assert(buf@ =~= old(buf)@ + text_field_bytes(key, text@));
    } else {
        assert(buf@ =~= old(buf)@ + text_field_bytes(key, text@));
    }
}

/// Appends the envelope of `node` to `buf`.
pub fn encode_exec_node(node: &ExecNode, buf: &mut Vec<u8>)
    ensures
        final(buf)@ == old(buf)@ + exec_node_bytes(node@),
{
    let mut body: Vec<u8> = Vec::new();
    let key: u8 = match node {
        ExecNode::MemExec { table_name, schema } => {
            encode_text_field(KEY_FIELD_1, table_name.as_str(), &mut body);
            encode_text_field(KEY_FIELD_2, schema.as_str(), &mut body);
            KEY_FIELD_1
        },
        ExecNode::UnnestExec { schema } => {
            encode_text_field(KEY_FIELD_1, schema.as_str(), &mut body);
            KEY_FIELD_2
        },
    };
    assert(body@ =~= node_body_bytes(node@));
    buf.push(key);
    encode_varint(body.len() as u64, buf);
    append_bytes(buf, body.as_slice());
    assert(buf@ =~= old(buf)@ + exec_node_bytes(node@));
}

// ---------------------------------------------------------------------------
// Reading
// ---------------------------------------------------------------------------

fn decode_delimited(buf: &[u8], pos: usize, end: usize) -> (r: Option<(usize, usize)>)
    requires
        pos <= end <= buf.len(),
    ensures
        match parse_delimited(buf@.subrange(pos as int, end as int)) {
            Some((payload, n)) => r matches Some((start, stop)) && pos <= start <= stop <= end
                && stop == pos + n && payload == buf@.subrange(start as int, stop as int),
            None => r is None,
        },
{
    let ghost s = buf@.subrange(pos as int, end as int);
    match decode_varint(buf, pos, end) {
        Some((len, start)) => {
            if len > (end - start) as u64 {
                None
            } else {
                let stop: usize = start + len as usize;
                assert(s.subrange(start - pos, stop - pos) =~= buf@.subrange(
                    start as int,
                    stop as int,
                ));
                Some((start, stop))
            }
        },
        None => None,
    }
}

fn decode_text(buf: &[u8], pos: usize, end: usize) -> (r: Option<(String, usize)>)
    requires
        pos <= end <= buf.len(),
    ensures
        match parse_text(buf@.subrange(pos as int, end as int)) {
            Some((text, n)) => r matches Some((found, next)) && found@ == text && next == pos + n
                && next <= end,
            None => r is None,
        },
{
    match decode_delimited(buf, pos, end) {
        Some((start, stop)) => match utf8_to_string(slice_subrange(buf, start, stop)) {
            Some(text) => Some((text, stop)),
            None => None,
        },
        None => None,
    }
}

fn skip_field(wire_type: WireType, tag: u32, buf: &[u8], pos: usize, end: usize, depth: u32) -> (r:
    Option<usize>)
    requires
        pos <= end <= buf.len(),
    ensures
        match skipped_len(wire_type, tag as nat, buf@.subrange(pos as int, end as int), depth as nat) {
            Some(n) => r == Some((pos + n) as usize) && pos + n <= end,
            None => r is None,
        },
    decreases end - pos, 1nat,
{
    if depth == 0 {
        return None;
    }
    match wire_type {
        WireType::Varint => match decode_varint(buf, pos, end) {
            Some((_, next)) => Some(next),
            None => None,
        },
        WireType::SixtyFourBit => if end - pos >= 8 {
            Some(pos + 8)
        } else {
            None
        },
        WireType::ThirtyTwoBit => if end - pos >= 4 {
            Some(pos + 4)
        } else {
            None
        },
        WireType::LengthDelimited => match decode_delimited(buf, pos, end) {
            Some((_, stop)) => Some(stop),
            None => None,
        },
        WireType::StartGroup => skip_group(tag, buf, pos, end, depth),
        WireType::EndGroup => None,
    }
}

fn skip_group(tag: u32, buf: &[u8], pos: usize, end: usize, depth: u32) -> (r: Option<usize>)
    requires
        pos <= end <= buf.len(),
    ensures
        match skipped_group(tag as nat, buf@.subrange(pos as int, end as int), depth as nat) {
            Some(n) => r == Some((pos + n) as usize) && pos + n <= end,
            None => r is None,
        },
    decreases end - pos, 0nat,
{
    let ghost s = buf@.subrange(pos as int, end as int);
    match decode_key(buf, pos, end) {
        None => None,
        Some((inner_tag, inner_type, after_key)) => {
            match inner_type {
                WireType::EndGroup => {
                    return if inner_tag == tag {
                        Some(after_key)
                    } else {
                        None
                    };
                },
                _ => {},
            }
            if depth == 0 {
                return None;
            }
            assert(s.skip(after_key - pos) =~= buf@.subrange(after_key as int, end as int));
            match skip_field(inner_type, inner_tag, buf, after_key, end, depth - 1) {
                None => None,
                Some(next) => {
                    assert(s.skip(next - pos) =~= buf@.subrange(next as int, end as int));
                    skip_group(tag, buf, next, end, depth)
                },
            }
        },
    }
}

fn decode_text_fields_step(buf: &[u8], pos: usize, end: usize, fields: &mut Vec<String>) -> (r:
    Option<usize>)
    requires
        pos <= end <= buf.len(),
    ensures
        match text_fields_step(buf@.subrange(pos as int, end as int), old(fields).deep_view()) {
            Some((n, out)) => r == Some((pos + n) as usize) && 1 <= n && pos + n <= end
                && final(fields).deep_view() == out,
            None => r is None,
        },
{
    let ghost s = buf@.subrange(pos as int, end as int);
    match decode_key(buf, pos, end) {
        None => None,
        Some((tag, wire_type, after_key)) => {
            assert(s.skip(after_key - pos) =~= buf@.subrange(after_key as int, end as int));
            if tag as usize <= fields.len() {
                match wire_type {
                    WireType::LengthDelimited => {},
                    _ => {
                        return None;
                    },
                }
                match decode_text(buf, after_key, end) {
                    None => None,
                    Some((text, next)) => {
                        let ghost before = fields.deep_view();
                        fields.set(tag as usize - 1, text);
                        assert(fields.deep_view() =~= before.update(tag - 1, text@));
                        Some(next)
                    },
                }
            } else {
                skip_field(wire_type, tag, buf, after_key, end, NODE_DEPTH)
            }
        },
    }
}

fn decode_text_fields(buf: &[u8], pos: usize, end: usize, fields: &mut Vec<String>) -> (ok: bool)
    requires
        pos <= end <= buf.len(),
    ensures
        match parse_text_fields(buf@.subrange(pos as int, end as int), old(fields).deep_view()) {
            Some(out) => ok && final(fields).deep_view() == out,
            None => !ok,
        },
{
    let mut cur: usize = pos;
    while cur < end
        invariant
            pos <= cur <= end <= buf.len(),
            parse_text_fields(buf@.subrange(pos as int, end as int), old(fields).deep_view())
                == parse_text_fields(buf@.subrange(cur as int, end as int), fields.deep_view()),
        decreases end - cur,
    {
        let ghost s = buf@.subrange(cur as int, end as int);
        match decode_text_fields_step(buf, cur, end, fields) {
            None => {
                return false;
            },
            Some(next) => {
                assert(s.skip(next - cur) =~= buf@.subrange(next as int, end as int));
                cur = next;
            },
        }
    }
    true
}

fn starting_text_fields(tag: u32, so_far: Option<ExecNode>) -> (fields: Vec<String>)
    requires
        tag == 1 || tag == 2,
    ensures
        fields.deep_view() == starting_fields(tag as nat, option_view(so_far)),
{
    let mut fields: Vec<String> = Vec::new();
    if tag == 1 {
        match so_far {
            Some(ExecNode::MemExec { table_name, schema }) => {
                fields.push(table_name);
                fields.push(schema);
            },
            _ => {
                fields.push(String::new());
                fields.push(String::new());
            },
        }
    } else {
        match so_far {
            Some(ExecNode::UnnestExec { schema }) => {
                fields.push(schema);
            },
            _ => {
                fields.push(String::new());
            },
        }
    }
    assert(fields.deep_view() =~= starting_fields(tag as nat, option_view(so_far)));
    fields
}

fn node_from_fields(tag: u32, fields: Vec<String>) -> (node: ExecNode)
    requires
        tag == 1 && fields.len() == 2 || tag == 2 && fields.len() == 1,
    ensures
        node@ == node_of_fields(tag as nat, fields.deep_view()),
{
    let mut fields = fields;
    let ghost all = fields.deep_view();
    if tag == 1 {
        let schema = fields.pop().unwrap();
        let table_name = fields.pop().unwrap();
        assert(schema@ == all[1] && table_name@ == all[0]);
        ExecNode::MemExec { table_name, schema }
    } else {
        let schema = fields.pop().unwrap();
        assert(schema@ == all[0]);
        ExecNode::UnnestExec { schema }
    }
}

/// The view of a node that may be absent.
pub open spec fn option_view(node: Option<ExecNode>) -> Option<ExecNodeView> {
    match node {
        Some(n) => Some(n@),
        None => None,
    }
}

/// Text fields keep their number when a message body is read.
proof fn lemma_parse_text_fields_len(s: Seq<u8>, fields: Seq<Seq<char>>)
    ensures
        parse_text_fields(s, fields) matches Some(out) ==> out.len() == fields.len(),
    decreases s.len(),
{
    if s.len() != 0 {
        match text_fields_step(s, fields) {
            Some((n, next)) => {
                if 1 <= n <= s.len() {
                    lemma_parse_text_fields_len(s.skip(n as int), next);
                }
            },
            None => {},
        }
    }
}

fn decode_envelope_step(buf: &[u8], pos: usize, end: usize, so_far: Option<ExecNode>) -> (r:
    Option<(usize, Option<ExecNode>)>)
    requires
        pos <= end <= buf.len(),
    ensures
        match envelope_step(buf@.subrange(pos as int, end as int), option_view(so_far)) {
            Some((n, node)) => r matches Some((next, found)) && next == pos + n && 1 <= n && next
                <= end && option_view(found) == node,
            None => r is None,
        },
{
    let ghost s = buf@.subrange(pos as int, end as int);
    match decode_key(buf, pos, end) {
        None => None,
        Some((tag, wire_type, after_key)) => {
            assert(s.skip(after_key - pos) =~= buf@.subrange(after_key as int, end as int));
            if tag == 1 || tag == 2 {
                match wire_type {
                    WireType::LengthDelimited => {},
                    _ => {
                        return None;
                    },
                }
                match decode_delimited(buf, after_key, end) {
                    None => None,
                    Some((start, stop)) => {
                        let mut fields = starting_text_fields(tag, so_far);
                        proof {
                            lemma_parse_text_fields_len(
                                buf@.subrange(start as int, stop as int),
                                fields.deep_view(),
                            );
                        }
                        if !decode_text_fields(buf, start, stop, &mut fields) {
                            return None;
                        }
                        Some((stop, Some(node_from_fields(tag, fields))))
                    },
                }
            } else {
                match skip_field(wire_type, tag, buf, after_key, end, ENVELOPE_DEPTH) {
                    None => None,
                    Some(next) => Some((next, so_far)),
                }
            }
        },
    }
}

/// Reads an envelope: `None` where `buf` is no envelope, `Some(None)` where
/// it is one that holds no node.
pub fn decode_exec_node(buf: &[u8]) -> (r: Option<Option<ExecNode>>)
    ensures
        match parse_exec_node(buf@) {
            Some(node) => r matches Some(found) && option_view(found) == node,
            None => r is None,
        },
{
    let end: usize = buf.len();
    let mut cur: usize = 0;
    let mut so_far: Option<ExecNode> = None;
    assert(buf@.subrange(0, end as int) =~= buf@);
    while cur < end
        invariant
            cur <= end == buf.len(),
            parse_exec_node(buf@) == parse_envelope(
                buf@.subrange(cur as int, end as int),
                option_view(so_far),
            ),
        decreases end - cur,
    {
        let ghost s = buf@.subrange(cur as int, end as int);
        match decode_envelope_step(buf, cur, end, so_far) {
            None => {
                return None;
            },
            Some((next, found)) => {
                assert(s.skip(next - cur) =~= buf@.subrange(next as int, end as int));
                so_far = found;
                cur = next;
            },
        }
    }
    Some(so_far)
}

// ---------------------------------------------------------------------------
// What is written is read back
// ---------------------------------------------------------------------------

/// Whether the byte lengths of a node's texts, and of its body, can be
/// written as 64-bit lengths. Every node in memory meets this.
pub open spec fn node_fits(node: ExecNodeView) -> bool {
    &&& node_body_bytes(node).len() <= u64::MAX
    &&& match node {
        ExecNodeView::MemExec { table_name, schema } => encode_utf8(table_name).len() <= u64::MAX
            && encode_utf8(schema).len() <= u64::MAX,
        ExecNodeView::UnnestExec { schema } => encode_utf8(schema).len() <= u64::MAX,
    }
}

proof fn lemma_parse_single_byte_key(key: u8, rest: Seq<u8>)
    requires
        key == KEY_FIELD_1 || key == KEY_FIELD_2,
    ensures
        parse_key(seq![key] + rest) == Some(
            ((key / 8) as nat, WireType::LengthDelimited, 1nat),
        ),
{
    let s = seq![key] + rest;
    assert(s[0] == key);
}

proof fn lemma_parse_delimited_roundtrip(payload: Seq<u8>, rest: Seq<u8>)
    requires
        payload.len() <= u64::MAX,
    ensures
        parse_delimited(varint_bytes(payload.len()) + payload + rest) == Some(
            (payload, varint_bytes(payload.len()).len() + payload.len()),
        ),
{
    let prefix = varint_bytes(payload.len());
    let s = prefix + payload + rest;
    assert(s =~= prefix + (payload + rest));
    lemma_varint_roundtrip(payload.len(), payload + rest);
    assert(s.subrange(prefix.len() as int, (prefix.len() + payload.len()) as int) =~= payload);
}

proof fn lemma_parse_text_field(
    key: u8,
    text: Seq<char>,
    rest: Seq<u8>,
    fields: Seq<Seq<char>>,
)
    requires
        key == KEY_FIELD_1 || key == KEY_FIELD_2,
        key / 8 <= fields.len(),
        encode_utf8(text).len() <= u64::MAX,
        text.len() == 0 ==> fields[key / 8 - 1].len() == 0,
    ensures
        parse_text_fields(text_field_bytes(key, text) + rest, fields) == parse_text_fields(
            rest,
            fields.update(key / 8 - 1, text),
        ),
{
    if text.len() == 0 {
        assert(text_field_bytes(key, text) + rest =~= rest);
        assert(fields[key / 8 - 1] =~= text);
        assert(fields.update(key / 8 - 1, text) =~= fields);
    } else {
        let utf8 = encode_utf8(text);
        let prefix = varint_bytes(utf8.len());
        let field = text_field_bytes(key, text);
        let s = field + rest;
        assert(s =~= seq![key] + (prefix + utf8 + rest));
        lemma_parse_single_byte_key(key, prefix + utf8 + rest);
        assert(s.skip(1) =~= prefix + utf8 + rest);
        lemma_parse_delimited_roundtrip(utf8, rest);
        encode_utf8_valid_utf8(text);
        encode_utf8_decode_utf8(text);
        assert(parse_text(s.skip(1)) == Some((text, prefix.len() + utf8.len())));
        assert(field.len() == 1 + prefix.len() + utf8.len());
        assert(text_fields_step(s, fields) == Some(
            (field.len(), fields.update(key / 8 - 1, text)),
        ));
        assert(s.skip(field.len() as int) =~= rest);
    }
}

/// The body of a node is read back into the node's text fields, from empty
/// ones.
proof fn lemma_node_body_roundtrip(node: ExecNodeView)
    requires
        node_fits(node),
    ensures
        parse_text_fields(node_body_bytes(node), starting_fields(node_key(node) as nat / 8, None))
            matches Some(fields) && node_of_fields(node_key(node) as nat / 8, fields) == node,
{
    let empty = Seq::<u8>::empty();
    match node {
        ExecNodeView::MemExec { table_name, schema } => {
            let start = seq![Seq::<char>::empty(), Seq::<char>::empty()];
            let second = text_field_bytes(KEY_FIELD_2, schema);
            lemma_parse_text_field(KEY_FIELD_1, table_name, second, start);
            let mid = start.update(0, table_name);
            lemma_parse_text_field(KEY_FIELD_2, schema, empty, mid);
            assert(second + empty =~= second);
            assert(parse_text_fields(empty, mid.update(1, schema)) == Some(mid.update(1, schema)));
        },
        ExecNodeView::UnnestExec { schema } => {
            let start = seq![Seq::<char>::empty()];
            lemma_parse_text_field(KEY_FIELD_1, schema, empty, start);
            assert(text_field_bytes(KEY_FIELD_1, schema) + empty =~= text_field_bytes(
                KEY_FIELD_1,
                schema,
            ));
            assert(parse_text_fields(empty, start.update(0, schema)) == Some(
                start.update(0, schema),
            ));
        },
    }
}

/// Reading the envelope that was written for a node gives that node back.
pub proof fn lemma_exec_node_roundtrip(node: ExecNodeView)
    requires
        node_fits(node),
    ensures
        parse_exec_node(exec_node_bytes(node)) == Some(Some(node)),
{
    let key = node_key(node);
    let body = node_body_bytes(node);
    let prefix = varint_bytes(body.len());
    let s = exec_node_bytes(node);
    let empty = Seq::<u8>::empty();
    assert(s =~= seq![key] + (prefix + body));
    lemma_parse_single_byte_key(key, prefix + body);
    assert(s.skip(1) =~= prefix + body + empty);
    lemma_parse_delimited_roundtrip(body, empty);
    lemma_node_body_roundtrip(node);
    assert(envelope_step(s, None) == Some((s.len(), Some(node))));
    assert(s.skip(s.len() as int) =~= empty);
    assert(parse_envelope(empty, Some(node)) == Some(Some(node)));
}

// ---------------------------------------------------------------------------
// The codec
// ---------------------------------------------------------------------------

/// The name of the column that an unnest node fills.
pub const UNNESTED_COL: &'static str = "__unnested";

/// What a decoded placeholder source is bound to. The caller picks one just
/// before it decodes a plan and holds the slots that the variants speak of.
#[derive(Clone, Copy, Debug, PartialEq, Eq, Structural)]
pub enum DecodingContext {
    /// No binding: a placeholder cannot be decoded.
    NoContext,
    /// The plan is only inspected: a placeholder yields no rows.
    Planning,
    /// A placeholder takes the one batch of the caller's slot.
    SingleLockedBatch,
    /// A placeholder streams from the caller's receiver until it closes.
    UnboundedBatchStream,
    /// A placeholder takes all batches of the caller's list.
    LockedBatchVec,
    /// The placeholders named `left` and `right` each take the one batch of
    /// the slot of their side.
    LockedJoinPair,
}

/// The one-batch slot that a reader takes from.
#[derive(Clone, Copy, Debug, PartialEq, Eq, Structural)]
pub enum LockedSlot {
    Single,
    Left,
    Right,
}

/// A placeholder source that yields no rows: it carries the name of the
/// table it stands for and the JSON text of its schema.
#[derive(Debug, PartialEq, Eq)]
pub struct ArroyoMemExec {
    pub table_name: String,
    pub schema: String,
}

/// The plan node that a decoded extension becomes. Every reader has one
/// partition of unknown distribution, no ordering and no children.
#[derive(Debug, PartialEq, Eq)]
pub enum DecodedPlan {
    MemExec(ArroyoMemExec),
    RwLockRecordBatchReader { schema: String, slot: LockedSlot },
    UnboundedRecordBatchReader { schema: String },
    RecordBatchVecReader { schema: String },
    /// An unnest of the column at index `column` over the first input.
    UnnestExec { schema: String, column: usize },
}

pub enum DecodedPlanView {
    MemExec { table_name: Seq<char>, schema: Seq<char> },
    RwLockRecordBatchReader { schema: Seq<char>, slot: LockedSlot },
    UnboundedRecordBatchReader { schema: Seq<char> },
    RecordBatchVecReader { schema: Seq<char> },
    UnnestExec { schema: Seq<char>, column: nat },
}

impl View for DecodedPlan {
    type V = DecodedPlanView;

    open spec fn view(&self) -> DecodedPlanView {
        match self {
            DecodedPlan::MemExec(exec) => DecodedPlanView::MemExec {
                table_name: exec.table_name@,
                schema: exec.schema@,
            },
            DecodedPlan::RwLockRecordBatchReader { schema, slot } => {
                DecodedPlanView::RwLockRecordBatchReader { schema: schema@, slot: *slot }
            },
            DecodedPlan::UnboundedRecordBatchReader { schema } => {
                DecodedPlanView::UnboundedRecordBatchReader { schema: schema@ }
            },
            DecodedPlan::RecordBatchVecReader { schema } => DecodedPlanView::RecordBatchVecReader {
                schema: schema@,
            },
            DecodedPlan::UnnestExec { schema, column } => DecodedPlanView::UnnestExec {
                schema: schema@,
                column: *column as nat,
            },
        }
    }
}

/// A physical plan node as the encoder sees it: one of the two extensions
/// it can write, or any other node, known by its description.
#[derive(Debug, PartialEq, Eq)]
pub enum ExtensionPlan {
    MemExec(ArroyoMemExec),
    Unnest { schema: String },
    Other { description: String },
}

/// Whether `i` is the first position of `name` in `names`.
pub open spec fn is_first_index(names: Seq<Seq<char>>, name: Seq<char>, i: int) -> bool {
    &&& 0 <= i < names.len()
    &&& names[i] == name
    &&& forall|j: int| 0 <= j < i ==> names[j] != name
}

/// The first position of `name` in `names`.
pub open spec fn field_index(names: Seq<Seq<char>>, name: Seq<char>) -> Option<nat> {
    if exists|i: int| is_first_index(names, name, i) {
        Some((choose|i: int| is_first_index(names, name, i)) as nat)
    } else {
        None
    }
}

/// Finds the first field of the given name.
pub fn find_field(names: &Vec<String>, name: &str) -> (r: Option<usize>)
    ensures
        match field_index(names.deep_view(), name@) {
            Some(i) => r == Some(i as usize),
            None => r is None,
        },
{
    let ghost all = names.deep_view();
    let mut i: usize = 0;
    while i < names.len()
        invariant
            i <= names.len(),
            all == names.deep_view(),
            forall|j: int| 0 <= j < i ==> all[j] != name@,
        decreases names.len() - i,
    {
        if same_text(names[i].as_str(), name) {
            assert(is_first_index(all, name@, i as int));
            let ghost chosen = choose|k: int| is_first_index(all, name@, k);
            assert(chosen == i) by {
                if chosen < i {
                    assert(all[chosen] != name@);
                } else if chosen > i {
                    assert(all[i as int] != name@);
                }
            }
            return Some(i);
        }
        i += 1;
    }
    assert(forall|k: int| !is_first_index(all, name@, k));
    None
}

/// The outcome of reading a schema text: the field names, or what was wrong
/// with the text.
pub open spec fn schema_outcome_view(fields: Result<Vec<String>, String>) -> Result<
    Seq<Seq<char>>,
    Seq<char>,
> {
    match fields {
        Ok(names) => Ok(names.deep_view()),
        Err(detail) => Err(detail@),
    }
}

/// The outcome of decoding, by views.
pub open spec fn decode_outcome_view(r: Result<DecodedPlan, PlanError>) -> Result<
    DecodedPlanView,
    (ErrorKind, Seq<char>),
> {
    match r {
        Ok(plan) => Ok(plan@),
        Err(e) => Err(e@),
    }
}

/// What a node becomes under a context, once its schema text was read and
/// with the given number of inputs.
pub open spec fn materialized(
    context: DecodingContext,
    node: ExecNodeView,
    fields: Result<Seq<Seq<char>>, Seq<char>>,
    inputs: nat,
) -> Result<DecodedPlanView, (ErrorKind, Seq<char>)> {
    match fields {
        Err(detail) => Err((ErrorKind::Internal, "invalid schema in exec codec: "@ + detail)),
        Ok(names) => match node {
            ExecNodeView::MemExec { table_name, schema } => match context {
                DecodingContext::SingleLockedBatch => Ok(
                    DecodedPlanView::RwLockRecordBatchReader { schema, slot: LockedSlot::Single },
                ),
                DecodingContext::UnboundedBatchStream => Ok(
                    DecodedPlanView::UnboundedRecordBatchReader { schema },
                ),
                DecodingContext::LockedBatchVec => Ok(
                    DecodedPlanView::RecordBatchVecReader { schema },
                ),
                DecodingContext::Planning => Ok(DecodedPlanView::MemExec { table_name, schema }),
                DecodingContext::NoContext => Err((ErrorKind::Internal, "need context"@)),
                DecodingContext::LockedJoinPair => if table_name == "left"@ {
                    Ok(DecodedPlanView::RwLockRecordBatchReader { schema, slot: LockedSlot::Left })
                } else if table_name == "right"@ {
                    Ok(DecodedPlanView::RwLockRecordBatchReader { schema, slot: LockedSlot::Right })
                } else {
                    Err((ErrorKind::Internal, "unknown table name "@ + table_name))
                },
            },
            ExecNodeView::UnnestExec { schema } => match field_index(names, UNNESTED_COL@) {
                None => Err(
                    (
                        ErrorKind::Internal,
                        "unnest node schema does not contain "@ + UNNESTED_COL@ + " col"@,
                    ),
                ),
                Some(column) => if inputs == 0 {
                    Err((ErrorKind::Internal, "no input for unnest node"@))
                } else {
                    Ok(DecodedPlanView::UnnestExec { schema, column })
                },
            },
        },
    }
}

/// Turns a node that was read into the plan node that the context calls
/// for. `fields` is the outcome of reading the node's schema text.
pub fn materialize(
    context: DecodingContext,
    node: ExecNode,
    fields: Result<Vec<String>, String>,
    inputs: usize,
) -> (r: Result<DecodedPlan, PlanError>)
    ensures
        decode_outcome_view(r) == materialized(
            context,
            node@,
            schema_outcome_view(fields),
            inputs as nat,
        ),
{
    let names = match fields {
        Err(detail) => {
            let message = "invalid schema in exec codec: ".to_owned().concat(detail.as_str());
            return Err(PlanError { kind: ErrorKind::Internal, message });
        },
        Ok(names) => names,
    };
    match node {
        ExecNode::MemExec { table_name, schema } => match context {
            DecodingContext::SingleLockedBatch => Ok(
                DecodedPlan::RwLockRecordBatchReader { schema, slot: LockedSlot::Single },
            ),
            DecodingContext::UnboundedBatchStream => Ok(
                DecodedPlan::UnboundedRecordBatchReader { schema },
            ),
            DecodingContext::LockedBatchVec => Ok(DecodedPlan::RecordBatchVecReader { schema }),
            DecodingContext::Planning => Ok(
                DecodedPlan::MemExec(ArroyoMemExec { table_name, schema }),
            ),
            DecodingContext::NoContext => Err(PlanError::internal("need context")),
            DecodingContext::LockedJoinPair => {
                if same_text(table_name.as_str(), "left") {
                    Ok(DecodedPlan::RwLockRecordBatchReader { schema, slot: LockedSlot::Left })
                } else if same_text(table_name.as_str(), "right") {
                    Ok(DecodedPlan::RwLockRecordBatchReader { schema, slot: LockedSlot::Right })
                } else {
                    let message = "unknown table name ".to_owned().concat(table_name.as_str());
                    Err(PlanError { kind: ErrorKind::Internal, message })
                }
            },
        },
        ExecNode::UnnestExec { schema } => match find_field(&names, UNNESTED_COL) {
            None => {
                let message = "unnest node schema does not contain ".to_owned().concat(
                    UNNESTED_COL,
                ).concat(" col");
                Err(PlanError { kind: ErrorKind::Internal, message })
            },
            Some(column) => {
                if inputs == 0 {
                    Err(PlanError::internal("no input for unnest node"))
                } else {
                    Ok(DecodedPlan::UnnestExec { schema, column })
                }
            },
        },
    }
}

/// The codec for the streaming extensions of a physical plan.
#[derive(Debug)]
pub struct ArroyoPhysicalExtensionCodec {
    pub context: DecodingContext,
}

impl Default for ArroyoPhysicalExtensionCodec {
    fn default() -> (codec: Self)
        ensures
            codec.context == DecodingContext::NoContext,
    {
        ArroyoPhysicalExtensionCodec { context: DecodingContext::NoContext }
    }
}

impl ArroyoPhysicalExtensionCodec {
    /// Decodes one extension from `buf`, for a plan node that has `inputs`
    /// inputs. The bytes must be an envelope that holds a node, and the
    /// node's schema text must be a schema; what the node then becomes is
    /// [`materialized`].
    pub fn try_decode(&self, buf: &[u8], inputs: usize) -> (r: Result<DecodedPlan, PlanError>)
        ensures
            match parse_exec_node(buf@) {
                None => r matches Err(e) && e@ == (
                    ErrorKind::Internal,
                    "couldn't deserialize: invalid wire format"@,
                ),
                Some(None) => r matches Err(e) && e@ == (
                    ErrorKind::Internal,
                    "exec node is empty"@,
                ),
                Some(Some(node)) => match json_schema_fields(node.schema_text()) {
                    Some(names) => decode_outcome_view(r) == materialized(
                        self.context,
                        node,
                        Ok(names),
                        inputs as nat,
                    ),
                    None => r matches Err(e) && e@.0 == ErrorKind::Internal && exists|
                        detail: Seq<char>,
                    |
                        e@.1 == "invalid schema in exec codec: "@ + detail,
                },
            },
    {
        let node = match decode_exec_node(buf) {
            None => {
                return Err(PlanError::internal("couldn't deserialize: invalid wire format"));
            },
            Some(None) => {
                return Err(PlanError::internal("exec node is empty"));
            },
            Some(Some(node)) => node,
        };
        let parsed = match &node {
            ExecNode::MemExec { schema, .. } => parse_schema_fields(schema.as_str()),
            ExecNode::UnnestExec { schema } => parse_schema_fields(schema.as_str()),
        };
        let fields = match parsed {
            Ok(names) => Ok(names),
            Err(e) => Err(describe_json_error(&e)),
        };
        materialize(self.context, node, fields, inputs)
    }

    /// Appends the envelope of `node` to `buf`. Only the two streaming
    /// extensions can be written.
    pub fn try_encode(&self, node: &ExtensionPlan, buf: &mut Vec<u8>) -> (r: Result<(), PlanError>)
        ensures
            match node {
                ExtensionPlan::MemExec(exec) => r is Ok && final(buf)@ == old(buf)@
                    + exec_node_bytes(
                    ExecNodeView::MemExec { table_name: exec.table_name@, schema: exec.schema@ },
                ),
                ExtensionPlan::Unnest { schema } => r is Ok && final(buf)@ == old(buf)@
                    + exec_node_bytes(ExecNodeView::UnnestExec { schema: schema@ }),
                ExtensionPlan::Other { description } => r matches Err(e) && e@ == (
                    ErrorKind::Internal,
                    "cannot serialize "@ + description@,
                ) && final(buf)@ == old(buf)@,
            },
    {
        match node {
            ExtensionPlan::MemExec(exec) => {
                let proto = ExecNode::MemExec {
                    table_name: exec.table_name.clone(),
                    schema: exec.schema.clone(),
                };
                encode_exec_node(&proto, buf);
                Ok(())
            },
            ExtensionPlan::Unnest { schema } => {
                let proto = ExecNode::UnnestExec { schema: schema.clone() };
                encode_exec_node(&proto, buf);
                Ok(())
            },
            ExtensionPlan::Other { description } => {
                let message = "cannot serialize ".to_owned().concat(description.as_str());
                Err(PlanError { kind: ErrorKind::Internal, message })
            },
        }
    }
}

/// A placeholder that is written and then decoded for planning comes back
/// with its table name and schema text, provided that text is a schema.
pub proof fn lemma_mem_exec_roundtrip(table_name: Seq<char>, schema: Seq<char>, inputs: nat)
    requires
        node_fits(ExecNodeView::MemExec { table_name, schema }),
        json_schema_fields(schema) is Some,
    ensures
        parse_exec_node(exec_node_bytes(ExecNodeView::MemExec { table_name, schema })) matches Some(
            Some(node),
        ) && materialized(
            DecodingContext::Planning,
            node,
            Ok(json_schema_fields(node.schema_text())->0),
            inputs,
        ) == Ok::<DecodedPlanView, (ErrorKind, Seq<char>)>(
            DecodedPlanView::MemExec { table_name, schema },
        ),
{
    lemma_exec_node_roundtrip(ExecNodeView::MemExec { table_name, schema });
}

/// An unnest that is written and then decoded comes back with its schema
/// text and the position of the unnested column, whatever the context,
/// provided that text is a schema with that column and there is an input.
pub proof fn lemma_unnest_roundtrip(context: DecodingContext, schema: Seq<char>, inputs: nat)
    requires
        node_fits(ExecNodeView::UnnestExec { schema }),
        json_schema_fields(schema) matches Some(names) && field_index(names, UNNESTED_COL@)
            is Some,
        inputs > 0,
    ensures
        parse_exec_node(exec_node_bytes(ExecNodeView::UnnestExec { schema })) matches Some(
            Some(node),
        ) && materialized(context, node, Ok(json_schema_fields(node.schema_text())->0), inputs)
            == Ok::<DecodedPlanView, (ErrorKind, Seq<char>)>(
            DecodedPlanView::UnnestExec {
                schema,
                column: field_index(json_schema_fields(schema)->0, UNNESTED_COL@)->0,
            },
        ),
{
    lemma_exec_node_roundtrip(ExecNodeView::UnnestExec { schema });
}

impl DecodedPlan {
    /// The number of partitions that the node puts out, which are of
    /// unknown distribution: one.
    pub fn output_partitioning(&self) -> (partitions: usize)
        ensures
            partitions == 1,
    {
        1
    }

    /// The number of children of a reader or a placeholder: none. An unnest
    /// has its one input.
    pub fn children(&self) -> (count: usize)
        ensures
            count == (if self is UnnestExec {
                1usize
            } else {
                0usize
            }),
    {
        match self {
            DecodedPlan::UnnestExec { .. } => 1,
            _ => 0,
        }
    }

    /// A reader or a placeholder cannot be given children.
    pub fn with_new_children(&self, children: usize) -> (r: Result<(), PlanError>)
        ensures
            match self {
                DecodedPlan::UnnestExec { .. } => r is Ok <==> children == 1,
                DecodedPlan::MemExec(_) => r matches Err(e) && e@ == (
                    ErrorKind::Internal,
                    "unimplemented"@,
                ),
                _ => r matches Err(e) && e@ == (ErrorKind::Internal, "not supported"@),
            },
            r matches Err(e) ==> e@.0 == ErrorKind::Internal,
    {
        match self {
            DecodedPlan::UnnestExec { .. } => if children == 1 {
                Ok(())
            } else {
                Err(PlanError::internal("not supported"))
            },
            DecodedPlan::MemExec(_) => Err(PlanError::internal("unimplemented")),
            _ => Err(PlanError::internal("not supported")),
        }
    }
}

} // verus!
