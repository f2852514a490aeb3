use vstd::prelude::*;

verus! {

/// Arguments of the `encode` command: hide `message_data` in a chunk of
/// type `chunk_type` inside the file at `png_path`.
#[derive(Debug, PartialEq, Eq)]
pub struct EncodeArgs {
    pub png_path: String,
    pub chunk_type: String,
    pub message_data: String,
}

/// Arguments of the `decode` command.
#[derive(Debug, PartialEq, Eq)]
pub struct DecodeArgs {
    pub png_path: String,
    pub chunk_type: String,
}

/// Arguments of the `remove` command.
#[derive(Debug, PartialEq, Eq)]
pub struct RemoveArgs {
    pub png_path: String,
    pub chunk_type: String,
}

/// Arguments of the `print` command.
#[derive(Debug, PartialEq, Eq)]
pub struct PrintArgs {
    pub png_path: String,
}

/// The four commands of the command-line tool.
#[derive(Debug, PartialEq, Eq)]
pub enum PngMeArgs {
    Encode(EncodeArgs),
    Decode(DecodeArgs),
    Remove(RemoveArgs),
    Print(PrintArgs),
}

} // verus!
