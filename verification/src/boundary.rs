//! The host/guest boundary: how `(address, length)` pairs become read-only views
//! of linear memory, how text is decoded from them, and how a finished payload is
//! described to the host.
//!
//! Linear memory is modelled as a byte slice indexed from address zero. The guest
//! never checks an address against the size of that memory: a host that passes a
//! live buffer promises that it lies inside, and that promise is the `requires`
//! of every function here that reads.

use vstd::prelude::*;
use vstd::slice::*;
use vstd::utf8::*;
use crate::text::{decode_bytes, decoded_text};

verus! {

/// Status code returned by every export once its result has been handed over.
pub const STATUS_DELIVERED: i32 = 0;

/// Whether `(address, length)` denotes "no data": a null address or a
/// non-positive length.
pub open spec fn denotes_no_data(address: i32, length: i32) -> bool {
    address == 0 || length <= 0
}

/// The offset in linear memory that a 32-bit address stands for. Addresses are
/// unsigned on the wire; a negative `i32` is an offset in the upper half.
pub open spec fn address_of(address: i32) -> int {
    if address >= 0 {
        address as int
    } else {
        address + 0x1_0000_0000
    }
}

/// Whether the buffer `(address, length)` lies inside `memory`. A pair that
/// denotes no data lies inside every memory.
pub open spec fn buffer_in_memory(memory: Seq<u8>, address: i32, length: i32) -> bool {
    denotes_no_data(address, length) || address_of(address) + length <= memory.len()
}

/// The bytes that the buffer `(address, length)` denotes in `memory`.
pub open spec fn buffer_bytes(memory: Seq<u8>, address: i32, length: i32) -> Seq<u8> {
    if denotes_no_data(address, length) {
        Seq::empty()
    } else {
        memory.subrange(address_of(address), address_of(address) + length)
    }
}

/// A non-owning reference to a buffer in linear memory.
///
/// The fields are private: the only way to obtain a reference is [`view_buffer`],
/// which maps every "no data" input to the one empty reference.
#[derive(Clone, Copy, Debug)]
pub struct RawBufferReference {
    address: i32,
    length: i32,
}

impl RawBufferReference {
    /// Either the empty reference, or a non-null address with a positive length.
    #[verifier::type_invariant]
    spec fn well_formed(self) -> bool {
        (self.address == 0 && self.length == 0) || (self.address != 0 && self.length > 0)
    }

    pub closed spec fn spec_address(self) -> i32 {
        self.address
    }

    pub closed spec fn spec_length(self) -> i32 {
        self.length
    }

    /// The address of the first byte, or `0` for the empty reference.
    #[verifier::when_used_as_spec(spec_address)]
    pub fn address(self) -> (address: i32)
        ensures
            address == self.spec_address(),
    {
        self.address
    }

    /// The number of bytes referred to; `0` for the empty reference.
    #[verifier::when_used_as_spec(spec_length)]
    pub fn length(self) -> (length: i32)
        ensures
            length == self.spec_length(),
            length >= 0,
    {
        proof {
            use_type_invariant(self);
        }
        self.length
    }

    /// Whether this is the empty reference.
    pub fn is_empty(self) -> (empty: bool)
        ensures
            empty == (self.length() == 0),
            empty == (self.address() == 0),
            empty == denotes_no_data(self.address(), self.length()),
    {
        proof {
            use_type_invariant(self);
        }
        self.length == 0
    }
}

/// Turns a host-supplied `(address, length)` pair into a validated reference.
///
/// A null address or a non-positive length gives the empty reference; any other
/// pair is kept as it is. No memory is touched.
pub fn view_buffer(address: i32, length: i32) -> (view: RawBufferReference)
    ensures
        denotes_no_data(address, length) ==> view.address() == 0 && view.length() == 0,
        !denotes_no_data(address, length) ==> view.address() == address && view.length()
            == length,
{
    if address == 0 || length <= 0 {
        RawBufferReference { address: 0, length: 0 }
    } else {
        RawBufferReference { address, length }
    }
}

/// Whether the buffer `(address, length)` lies inside `memory`: the test a caller
/// makes before it reads.
pub fn buffer_fits(memory: &[u8], address: i32, length: i32) -> (fits: bool)
    ensures
        fits == buffer_in_memory(memory@, address, length),
{
    if address == 0 || length <= 0 {
        true
    } else {
        let start: u64 = if address >= 0 {
            address as u64
        } else {
            (address as i64 + 0x1_0000_0000) as u64
        };
        start + length as u64 <= memory.len() as u64
    }
}

/// The bytes behind a reference. The empty reference reads nothing, whatever the
/// memory holds.
pub fn read_buffer<'a>(memory: &'a [u8], view: RawBufferReference) -> (bytes: &'a [u8])
    requires
        buffer_in_memory(memory@, view.address(), view.length()),
    ensures
        bytes@ == buffer_bytes(memory@, view.address(), view.length()),
{
    proof {
        use_type_invariant(view);
    }
    if view.length == 0 {
        slice_subrange(memory, 0, 0)
    } else {
        let start: usize = if view.address >= 0 {
            view.address as usize
        } else {
            (view.address as i64 + 0x1_0000_0000) as usize
        };
        let size: usize = memory.len();
        assert(start + view.length <= size);
        let end: usize = start + view.length as usize;
        slice_subrange(memory, start, end)
    }
}

/// Decodes the buffer `(address, length)` as text, replacing whatever is not
/// valid UTF-8. A pair that denotes no data gives the empty string.
pub fn decode_string(memory: &[u8], address: i32, length: i32) -> (text: String)
    requires
        buffer_in_memory(memory@, address, length),
    ensures
        text@ == decoded_text(buffer_bytes(memory@, address, length)),
        denotes_no_data(address, length) ==> text@ == Seq::<char>::empty(),
        valid_utf8(buffer_bytes(memory@, address, length)) ==> encode_utf8(text@)
            == buffer_bytes(memory@, address, length),
{
    let view = view_buffer(address, length);
    if view.is_empty() {
        proof {
            crate::text::lemma_decoded_empty();
        }
        return String::new();
    }
    decode_bytes(read_buffer(memory, view))
}

/// A payload with the MIME type that says how to read it.
#[derive(Debug)]
pub struct ResultPayload {
    pub data: Vec<u8>,
    pub mime_type: String,
}

/// The mathematical content of a [`ResultPayload`].
pub ghost struct PayloadView {
    pub data: Seq<u8>,
    pub mime_type: Seq<char>,
}

impl View for ResultPayload {
    type V = PayloadView;

    open spec fn view(&self) -> PayloadView {
        PayloadView { data: self.data@, mime_type: self.mime_type@ }
    }
}

/// The payload without bytes labelled `mime_type`.
pub open spec fn empty_payload(mime_type: Seq<char>) -> PayloadView {
    PayloadView { data: Seq::empty(), mime_type }
}

impl ResultPayload {
    /// An empty payload labelled `mime_type`.
    pub fn empty(mime_type: &str) -> (payload: ResultPayload)
        ensures
            payload@ == empty_payload(mime_type@),
    {
        ResultPayload { data: Vec::new(), mime_type: String::from_str(mime_type) }
    }
}

/// Why a renderer produced nothing.
#[derive(Clone, Copy, Debug, PartialEq, Eq, Structural)]
pub enum RenderError {
    /// There were no bytes to render.
    NoData,
    /// The bytes are not an image in any format that can be decoded.
    NotAnImage,
    /// The decoded image does not hold three samples for each pixel once it is
    /// converted to 8-bit RGB.
    MalformedRaster,
    /// The set of themes is empty.
    NoTheme,
    /// The set of syntaxes has neither a syntax for the hint nor plain text.
    NoSyntax,
}

/// What a renderer returns, in mathematical terms.
pub open spec fn rendered_view(rendered: Result<ResultPayload, RenderError>) -> Result<
    PayloadView,
    RenderError,
> {
    match rendered {
        Ok(payload) => Ok(payload@),
        Err(error) => Err(error),
    }
}

/// The payload that the host sees for a rendering: the rendered one, or for any
/// failure the empty payload under the fallback MIME type.
pub open spec fn flattened(
    rendered: Result<PayloadView, RenderError>,
    fallback_mime: Seq<char>,
) -> PayloadView {
    match rendered {
        Ok(payload) => payload,
        Err(_) => empty_payload(fallback_mime),
    }
}

/// Turns a rendering into the payload for the host. The host cannot tell one
/// failure from another, nor a failure from an empty result: each arrives as no
/// bytes under `fallback_mime`.
pub fn flatten(rendered: Result<ResultPayload, RenderError>, fallback_mime: &str) -> (payload:
    ResultPayload)
    ensures
        payload@ == flattened(rendered_view(rendered), fallback_mime@),
{
    match rendered {
        Ok(payload) => payload,
        Err(_) => ResultPayload::empty(fallback_mime),
    }
}

/// The three values of one call of the host's result callback, with the buffers
/// that the two addresses refer to.
///
/// `data_len` is the length as the host receives it. The MIME type travels
/// without a length, so `mime` ends with a single zero byte that marks its end.
#[derive(Debug)]
pub struct HostCall {
    pub data: Vec<u8>,
    pub data_len: i32,
    pub mime: Vec<u8>,
}

/// A byte count as it arrives in a signed 32-bit argument: unchanged up to
/// `i32::MAX`, wrapped beyond.
pub open spec fn wire_length(count: nat) -> int {
    let low = count as int % 0x1_0000_0000;
    if low < 0x8000_0000 {
        low
    } else {
        low - 0x1_0000_0000
    }
}

/// The bytes of a zero-terminated string: everything before the first zero byte.
pub open spec fn until_zero(bytes: Seq<u8>) -> Seq<u8>
    decreases bytes.len(),
{
    if bytes.len() == 0 || bytes[0] == 0 {
        Seq::empty()
    } else {
        seq![bytes[0]] + until_zero(bytes.drop_first())
    }
}

/// Whether `text` is free of the character zero, so that a terminator can mark
/// its end.
pub open spec fn holds_no_zero(text: Seq<char>) -> bool {
    forall|i: int| 0 <= i < text.len() ==> text[i] != '\0'
}

/// Whether `call` hands over exactly `payload`: all of its bytes, their count,
/// and its MIME type followed by the terminator.
pub open spec fn hands_over(call: HostCall, payload: PayloadView) -> bool {
    &&& call.data@ == payload.data
    &&& call.data_len == wire_length(payload.data.len())
    &&& call.mime@ == encode_utf8(payload.mime_type).push(0u8)
}

/// Prepares the host callback for `payload` labelled `mime_type`.
pub fn emit_result(payload: Vec<u8>, mime_type: &str) -> (call: HostCall)
    ensures
        hands_over(call, PayloadView { data: payload@, mime_type: mime_type@ }),
        payload@.len() <= i32::MAX ==> call.data_len == payload@.len(),
{
    let mut mime = mime_type.as_bytes_vec();
    mime.push(0u8);
    let low: u64 = (payload.len() as u64) % 0x1_0000_0000;
    let data_len: i32 = if low < 0x8000_0000 {
        low as i32
    } else {
        (low as i64 - 0x1_0000_0000) as i32
    };
    HostCall { data: payload, data_len, mime }
}

/// What an export returns: its status code and the callback it asks for.
#[derive(Debug)]
pub struct ExportOutcome {
    pub status: i32,
    pub call: HostCall,
}

/// Finishes an export: prepares the callback for `payload` and reports that the
/// result was handed over, whatever the payload says about success.
pub fn deliver(payload: ResultPayload) -> (outcome: ExportOutcome)
    ensures
        outcome.status == STATUS_DELIVERED,
        hands_over(outcome.call, payload@),
{
    let call = emit_result(payload.data, payload.mime_type.as_str());
    ExportOutcome { status: STATUS_DELIVERED, call }
}

/// A pair that denotes no data reads as nothing in every memory, and needs
/// nothing of the memory to be read.
pub proof fn lemma_no_data_reads_nothing(memory: Seq<u8>, address: i32, length: i32)
    requires
        denotes_no_data(address, length),
    ensures
        buffer_in_memory(memory, address, length),
        buffer_bytes(memory, address, length) == Seq::<u8>::empty(),
        decoded_text(buffer_bytes(memory, address, length)) == Seq::<char>::empty(),
{
    crate::text::lemma_decoded_empty();
}

/// Text that the host wrote as UTF-8 is decoded exactly: the buffer that holds
/// the encoding of `text` decodes to `text`.
pub proof fn lemma_decode_string_round_trip(
    memory: Seq<u8>,
    address: i32,
    length: i32,
    text: Seq<char>,
)
    requires
        buffer_bytes(memory, address, length) == encode_utf8(text),
    ensures
        decoded_text(buffer_bytes(memory, address, length)) == text,
{
    crate::text::lemma_decode_round_trip(text);
}

/// A host that reads the MIME type up to the terminator sees exactly the bytes
/// that were handed over, provided none of them is zero.
pub proof fn lemma_terminated_reads_back(bytes: Seq<u8>)
    requires
        forall|i: int| 0 <= i < bytes.len() ==> bytes[i] != 0,
    ensures
        until_zero(bytes.push(0u8)) == bytes,
    decreases bytes.len(),
{
    let whole = bytes.push(0u8);
    if bytes.len() == 0 {
        assert(whole[0] == 0);
    } else {
        assert(whole[0] == bytes[0]);
        assert(whole.drop_first() =~= bytes.drop_first().push(0u8));
        lemma_terminated_reads_back(bytes.drop_first());
        assert(seq![bytes[0]] + bytes.drop_first() =~= bytes);
    }
}

/// A host that reads the MIME type as a zero-terminated string sees exactly its
/// UTF-8 bytes, provided the MIME type is free of the character zero.
pub proof fn lemma_mime_type_reads_back(call: HostCall, payload: PayloadView)
    requires
        hands_over(call, payload),
        holds_no_zero(payload.mime_type),
    ensures
        until_zero(call.mime@) == encode_utf8(payload.mime_type),
{
    crate::text::lemma_encoding_without_zero(payload.mime_type);
    lemma_terminated_reads_back(encode_utf8(payload.mime_type));
}

/// The MIME types that the renderers and their fallbacks use can all be read
/// back up to the terminator.
pub proof fn lemma_mime_types_hold_no_zero()
    ensures
        holds_no_zero("text/html"@),
        holds_no_zero("image/jpeg"@),
        holds_no_zero("application/json"@),
        holds_no_zero("application/octet-stream"@),
{
    reveal_strlit("text/html");
    reveal_strlit("image/jpeg");
    reveal_strlit("application/json");
    reveal_strlit("application/octet-stream");
}

/// The bytes a buffer denotes depend on nothing but the bytes inside it: two
/// memories that agree there give the same reading, whatever else they hold.
pub proof fn lemma_buffer_ignores_other_memory(
    first: Seq<u8>,
    second: Seq<u8>,
    address: i32,
    length: i32,
)
    requires
        buffer_in_memory(first, address, length),
        buffer_in_memory(second, address, length),
        forall|i: int|
            address_of(address) <= i < address_of(address) + length ==> first[i] == second[i],
    ensures
        buffer_bytes(first, address, length) == buffer_bytes(second, address, length),
{
    if !denotes_no_data(address, length) {
        assert(buffer_bytes(first, address, length) =~= buffer_bytes(second, address, length));
    }
}

/// What is handed over is decided by the payload: two callbacks for the same
/// payload carry the same bytes, the same count and the same MIME type.
pub proof fn lemma_hand_over_is_determined(first: HostCall, second: HostCall, payload: PayloadView)
    requires
        hands_over(first, payload),
        hands_over(second, payload),
    ensures
        first.data@ == second.data@,
        first.data_len == second.data_len,
        first.mime@ == second.mime@,
{
}

/// A payload of up to `i32::MAX` bytes is announced with its exact length, and
/// all of its bytes are handed over.
pub proof fn lemma_hand_over_keeps_every_byte(call: HostCall, payload: PayloadView)
    requires
        hands_over(call, payload),
        payload.data.len() <= i32::MAX,
    ensures
        call.data_len == payload.data.len(),
        call.data@.len() == call.data_len,
        call.data@ == payload.data,
        call.mime@.len() == encode_utf8(payload.mime_type).len() + 1,
        call.mime@.take(encode_utf8(payload.mime_type).len() as int) == encode_utf8(
            payload.mime_type,
        ),
{
    let bytes = encode_utf8(payload.mime_type);
    assert(bytes.push(0u8).take(bytes.len() as int) =~= bytes);
}

} // verus!
