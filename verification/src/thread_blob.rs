//! How the text of a thread is kept: as it is, or compressed.

use vstd::prelude::*;
use vstd::utf8::{decode_utf8, encode_utf8, valid_utf8};
use crate::models::outcome;
use crate::text::same;

verus! {

/// The form in which a thread's text is kept.
#[derive(Clone, Copy, Debug, PartialEq, Eq, Structural)]
pub enum DataType {
    /// The JSON text itself.
    Json,
    /// The JSON text, compressed.
    Zstd,
}

/// Why the text of a thread could not be had or kept.
#[derive(Debug, PartialEq, Eq)]
pub enum BlobError {
    /// No form goes by this name.
    UnknownDataType(String),
    /// The data cannot be decompressed; what is said of it.
    NotCompressed(String),
    /// The data is no UTF-8 text; what is said of it.
    NotText(String),
    /// There was no memory to compress the text in; what is said of it.
    CompressionFailed(String),
}

/// The model of a `BlobError`.
pub enum BlobErrorView {
    UnknownDataType(Seq<char>),
    NotCompressed(Seq<char>),
    NotText(Seq<char>),
    CompressionFailed(Seq<char>),
}

impl DeepView for BlobError {
    type V = BlobErrorView;

    open spec fn deep_view(&self) -> BlobErrorView {
        match self {
            BlobError::UnknownDataType(name) => BlobErrorView::UnknownDataType(name@),
            BlobError::NotCompressed(text) => BlobErrorView::NotCompressed(text@),
            BlobError::NotText(text) => BlobErrorView::NotText(text@),
            BlobError::CompressionFailed(text) => BlobErrorView::CompressionFailed(text@),
        }
    }
}

/// What is said of an error.
pub open spec fn blob_error_text(error: BlobErrorView) -> Seq<char> {
    match error {
        BlobErrorView::UnknownDataType(name) => "Unknown data type: "@ + name,
        BlobErrorView::NotCompressed(text) => text,
        BlobErrorView::NotText(text) => text,
        BlobErrorView::CompressionFailed(text) => text,
    }
}

impl BlobError {
    /// What is said of this error.
    pub fn message(&self) -> (r: String)
        ensures
            r@ == blob_error_text(self.deep_view()),
    {
        match self {
            BlobError::UnknownDataType(name) => {
                let mut text = "Unknown data type: ".to_owned();
                text.append(name.as_str());
                text
            },
            BlobError::NotCompressed(text) => text.clone(),
            BlobError::NotText(text) => text.clone(),
            BlobError::CompressionFailed(text) => text.clone(),
        }
    }
}

/// The name of a form.
pub open spec fn data_type_name(data_type: DataType) -> Seq<char> {
    match data_type {
        DataType::Json => "json"@,
        DataType::Zstd => "zstd"@,
    }
}

/// The form of that name.
pub open spec fn data_type_of(name: Seq<char>) -> Option<DataType> {
    if name == "json"@ {
        Some(DataType::Json)
    } else if name == "zstd"@ {
        Some(DataType::Zstd)
    } else {
        None
    }
}

/// A form is found by its name.
pub proof fn law_data_types_have_names(data_type: DataType)
    ensures
        data_type_of(data_type_name(data_type)) == Some(data_type),
{
    reveal_strlit("json");
    reveal_strlit("zstd");
    assert("json"@[0] == 'j');
    assert("zstd"@[0] == 'z');
}

impl DataType {
    /// The name of this form.
    pub fn as_str(self) -> (r: &'static str)
        ensures
            r@ == data_type_name(self),
    {
        match self {
            DataType::Json => "json",
            DataType::Zstd => "zstd",
        }
    }

    /// The form of that name.
    pub fn parse(name: &str) -> (r: Result<DataType, BlobError>)
        ensures
            match data_type_of(name@) {
                Some(data_type) => r == Ok::<DataType, BlobError>(data_type),
                None => r matches Err(error) && error.deep_view()
                    == BlobErrorView::UnknownDataType(name@),
            },
    {
        if same(name, "json") {
            Ok(DataType::Json)
        } else if same(name, "zstd") {
            Ok(DataType::Zstd)
        } else {
            Err(BlobError::UnknownDataType(name.to_owned()))
        }
    }
}

/// What compressed data holds, or what is said of data that cannot be decompressed.
pub uninterp spec fn decompressed(data: Seq<u8>) -> Result<Seq<u8>, Seq<char>>;

/// What is said of bytes that are no UTF-8 text.
pub uninterp spec fn utf8_error(bytes: Seq<u8>) -> Seq<char>;

/// `zstd::encode_all` at level three, the error as its text. It succeeds on bytes in
/// memory, and what it gives decompresses to the same bytes; it is not said which bytes it
/// gives. That memory runs out is left aside, here as for every other allocation.
#[verifier::external_body]
fn compress(bytes: &[u8]) -> (r: Result<Vec<u8>, String>)
    ensures
        r is Ok,
        decompressed(r->Ok_0@) is Ok,
        decompressed(r->Ok_0@)->Ok_0 == bytes@,
{
    match zstd::encode_all(bytes, 3) {
        Ok(data) => Ok(data),
        Err(error) => Err(error.to_string()),
    }
}

/// `zstd::decode_all`, the error as its text. What it gives is a function of the data
/// alone and goes by the name `decompressed`.
#[verifier::external_body]
fn decompress(data: &[u8]) -> (r: Result<Vec<u8>, String>)
    ensures
        match r {
            Ok(bytes) => decompressed(data@) == Ok::<Seq<u8>, Seq<char>>(bytes@),
            Err(error) => decompressed(data@) == Err::<Seq<u8>, Seq<char>>(error@),
        },
{
    match zstd::decode_all(data) {
        Ok(bytes) => Ok(bytes),
        Err(error) => Err(error.to_string()),
    }
}

/// `String::from_utf8`: the text whose UTF-8 bytes these are, where they are UTF-8. The
/// text of its error is a function of the bytes alone and goes by the name `utf8_error`.
#[verifier::external_body]
fn text_of(bytes: Vec<u8>) -> (r: Result<String, String>)
    ensures
        match r {
            Ok(text) => valid_utf8(bytes@) && text@ == decode_utf8(bytes@),
            Err(error) => !valid_utf8(bytes@) && error@ == utf8_error(bytes@),
        },
{
    match String::from_utf8(bytes) {
        Ok(text) => Ok(text),
        Err(error) => Err(error.to_string()),
    }
}

/// Bytes, compressed.
pub fn pack(bytes: &[u8]) -> (r: Result<Vec<u8>, BlobError>)
    ensures
        r matches Ok(data) && decompressed(data@) == Ok::<Seq<u8>, Seq<char>>(bytes@),
{
    match compress(bytes) {
        Ok(data) => Ok(data),
        Err(error) => Err(BlobError::CompressionFailed(error)),
    }
}

/// What compressed data holds.
pub fn unpack(data: &[u8]) -> (r: Result<Vec<u8>, BlobError>)
    ensures
        match decompressed(data@) {
            Ok(bytes) => r matches Ok(read) && read@ == bytes,
            Err(text) => r matches Err(error) && error.deep_view() == BlobErrorView::NotCompressed(
                text,
            ),
        },
{
    match decompress(data) {
        Ok(bytes) => Ok(bytes),
        Err(error) => Err(BlobError::NotCompressed(error)),
    }
}

/// The text of bytes.
pub open spec fn utf8_text(bytes: Seq<u8>) -> Result<Seq<char>, BlobErrorView> {
    if valid_utf8(bytes) {
        Ok(decode_utf8(bytes))
    } else {
        Err(BlobErrorView::NotText(utf8_error(bytes)))
    }
}

/// The text that is kept in some form.
pub open spec fn blob_text(data_type: DataType, data: Seq<u8>) -> Result<
    Seq<char>,
    BlobErrorView,
> {
    match data_type {
        DataType::Json => utf8_text(data),
        DataType::Zstd => match decompressed(data) {
            Ok(bytes) => utf8_text(bytes),
            Err(text) => Err(BlobErrorView::NotCompressed(text)),
        },
    }
}

fn read_utf8(bytes: Vec<u8>) -> (r: Result<String, BlobError>)
    ensures
        outcome(r) == utf8_text(bytes@),
{
    match text_of(bytes) {
        Ok(text) => Ok(text),
        Err(error) => Err(BlobError::NotText(error)),
    }
}

/// The text that is kept in some form.
pub fn read_blob(data_type: DataType, data: &Vec<u8>) -> (r: Result<String, BlobError>)
    ensures
        outcome(r) == blob_text(data_type, data@),
{
    match data_type {
        DataType::Json => read_utf8(data.clone()),
        DataType::Zstd => {
            match decompress(data.as_slice()) {
                Ok(bytes) => read_utf8(bytes),
                Err(error) => Err(BlobError::NotCompressed(error)),
            }
        },
    }
}

/// A text in compressed form: what is kept reads back as the same text.
pub fn write_blob(text: &str) -> (r: Result<Vec<u8>, BlobError>)
    ensures
        r matches Ok(data) && blob_text(DataType::Zstd, data@) == Ok::<Seq<char>, BlobErrorView>(
            text@,
        ),
{
    proof {
        vstd::utf8::encode_utf8_valid_utf8(text@);
        vstd::utf8::encode_utf8_decode_utf8(text@);
    }
    match compress(text.as_bytes()) {
        Ok(data) => Ok(data),
        Err(error) => Err(BlobError::CompressionFailed(error)),
    }
}

/// A form is known by one name: plain text as `json`, compressed text as `zstd`, and nothing
/// else is a form.
pub proof fn law_forms_are_json_and_zstd(name: Seq<char>)
    ensures
        data_type_of(name) == Some(DataType::Json) <==> name == "json"@,
        data_type_of(name) == Some(DataType::Zstd) <==> name == "zstd"@,
        data_type_of(name) is None <==> name != "json"@ && name != "zstd"@,
{
    reveal_strlit("json");
    reveal_strlit("zstd");
    assert("json"@[0] == 'j');
    assert("zstd"@[0] == 'z');
}

/// Plain data is the bytes of the text, and compressed data is what gives the bytes of the text
/// once it is unpacked.
pub proof fn law_data_is_the_text(text: Seq<char>, data: Seq<u8>)
    ensures
        blob_text(DataType::Json, encode_utf8(text)) == Ok::<Seq<char>, BlobErrorView>(text),
        decompressed(data) == Ok::<Seq<u8>, Seq<char>>(encode_utf8(text)) ==> blob_text(
            DataType::Zstd,
            data,
        ) == Ok::<Seq<char>, BlobErrorView>(text),
        decompressed(data) is Err ==> blob_text(DataType::Zstd, data) is Err,
        blob_text(DataType::Json, data) is Ok <==> valid_utf8(data),
{
    vstd::utf8::encode_utf8_valid_utf8(text);
    vstd::utf8::encode_utf8_decode_utf8(text);
}

} // verus!
