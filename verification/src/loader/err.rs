//! Errors of the `.wb` loader.
use vstd::prelude::*;

verus! {

/// What went wrong while loading a `.wb` file.
#[derive(Debug)]
pub enum LoaderErrorKind {
    /// The file is not in W8 Bytecode format.
    FileIsNotInW8BytecodeFormat {
        /// The full reason of the error.
        reason: String,
    },
    /// The file's version does not match the version of this library.
    UnsupportedVersion {
        /// The version the file was compiled with.
        file_version: String,
        /// The version of this library.
        vm_version: String,
    },
    /// An opcode byte that no opcode has (or an operand count above 3).
    UnknownOpcode { byte: u8 },
    /// An operand tag other than `0x00` (register) and `0x01` (immediate).
    UnknownOperandTag { byte: u8 },
    /// The file ended inside an instruction.
    UnexpectedEndOfFile {
        /// How many more bytes were needed.
        needed: usize,
        /// How many bytes remained.
        remaining: usize,
    },
}

/// The mathematical view of a [`LoaderErrorKind`]: texts are seen as their
/// characters.
pub enum LoaderErrorView {
    FileIsNotInW8BytecodeFormat { reason: Seq<char> },
    UnsupportedVersion { file_version: Seq<char>, vm_version: Seq<char> },
    UnknownOpcode { byte: u8 },
    UnknownOperandTag { byte: u8 },
    UnexpectedEndOfFile { needed: usize, remaining: usize },
}

impl View for LoaderErrorKind {
    type V = LoaderErrorView;

    open spec fn view(&self) -> LoaderErrorView {
        match self {
            LoaderErrorKind::FileIsNotInW8BytecodeFormat { reason } => LoaderErrorView::FileIsNotInW8BytecodeFormat {
                reason: reason@,
            },
            LoaderErrorKind::UnsupportedVersion { file_version, vm_version } => LoaderErrorView::UnsupportedVersion {
                file_version: file_version@,
                vm_version: vm_version@,
            },
            LoaderErrorKind::UnknownOpcode { byte } => LoaderErrorView::UnknownOpcode { byte: *byte },
            LoaderErrorKind::UnknownOperandTag { byte } => LoaderErrorView::UnknownOperandTag { byte: *byte },
            LoaderErrorKind::UnexpectedEndOfFile { needed, remaining } => LoaderErrorView::UnexpectedEndOfFile {
                needed: *needed,
                remaining: *remaining,
            },
        }
    }
}

/// The message that describes an error of the loader.
pub open spec fn loader_message(e: LoaderErrorView) -> Seq<char> {
    match e {
        LoaderErrorView::FileIsNotInW8BytecodeFormat { reason } => "the file is not in W8 Bytecode format: "@
            + reason,
        LoaderErrorView::UnsupportedVersion { file_version, vm_version } =>
            "the file was compiled with W8 version "@ + file_version
            + ", but the current VM version is "@ + vm_version,
        LoaderErrorView::UnknownOpcode { byte } => "unknown opcode byte: "@ + crate::text::decimal(
            byte as nat,
        ),
        LoaderErrorView::UnknownOperandTag { byte } => "unknown operand tag: "@ + crate::text::decimal(
            byte as nat,
        ),
        LoaderErrorView::UnexpectedEndOfFile { needed, remaining } => "unexpected end of file: needed "@
            + crate::text::decimal(needed as nat) + " more bytes, but only "@ + crate::text::decimal(
            remaining as nat,
        ) + " remain"@,
    }
}

impl LoaderErrorKind {
    /// The message that describes this error.
    pub fn to_string(&self) -> (r: String)
        ensures
            r@ == loader_message(self@),
    {
        match self {
            LoaderErrorKind::FileIsNotInW8BytecodeFormat { reason } => {
                let s = String::from_str("the file is not in W8 Bytecode format: ");
                s.concat(reason.as_str())
            },
            LoaderErrorKind::UnsupportedVersion { file_version, vm_version } => {
                let mut s = String::from_str("the file was compiled with W8 version ");
                s.append(file_version.as_str());
                s.append(", but the current VM version is ");
                s.append(vm_version.as_str());
                s
            },
            LoaderErrorKind::UnknownOpcode { byte } => {
                let mut s = String::from_str("unknown opcode byte: ");
                crate::text::push_decimal(&mut s, *byte as u64);
                s
            },
            LoaderErrorKind::UnknownOperandTag { byte } => {
                let mut s = String::from_str("unknown operand tag: ");
                crate::text::push_decimal(&mut s, *byte as u64);
                s
            },
            LoaderErrorKind::UnexpectedEndOfFile { needed, remaining } => {
                let mut s = String::from_str("unexpected end of file: needed ");
                crate::text::push_decimal(&mut s, *needed as u64);
                s.append(" more bytes, but only ");
                crate::text::push_decimal(&mut s, *remaining as u64);
                s.append(" remain");
                s
            },
        }
    }
}

/// An error of the `.wb` loader.
#[derive(Debug)]
pub struct LoaderError {
    pub kind: LoaderErrorKind,
}

impl LoaderError {
    pub fn new(kind: LoaderErrorKind) -> (r: Self)
        ensures
            r.kind == kind,
    {
        Self { kind }
    }

    /// The message that describes this error.
    pub fn to_string(&self) -> (r: String)
        ensures
            r@ == loader_message(self.kind@),
    {
        self.kind.to_string()
    }
}

} // verus!
