//! The errors of a trim, by the stage that raises them.

use vstd::prelude::*;

verus! {

/// The input files do not name exactly one archive and one manifest.
#[derive(Debug, Clone, Copy, PartialEq, Eq, Structural)]
pub enum ConflictError {
    /// A second `.tar` file was given.
    MultipleArchives,
    /// A second `.json` file was given.
    MultipleManifests,
    /// Neither a `.tar` nor a `.json` file was given.
    NoInputs,
    /// A `.json` file was given, but no `.tar` file.
    NoArchive,
    /// A `.tar` file was given, but no `.json` file.
    NoManifest,
}

/// The manifest does not have the expected shape.
#[derive(Debug, Clone, PartialEq, Eq)]
pub enum ParseError {
    /// The text is not JSON; the payload is the parser's message.
    InvalidJson(String),
    /// The document has no array at `[0].RootFS.Layers`.
    LayersNotArray,
    /// An item of the layer list is not a string.
    LayerNotString,
}

/// Why a trim did not go through.
#[derive(Debug, Clone, PartialEq, Eq)]
pub enum TrimError {
    /// Reading or writing failed; the payload is the system's message.
    Io(String),
    /// The manifest could not be read as a layer list.
    Parse(ParseError),
    /// The archive is corrupt, truncated or of a kind that is not read; the
    /// payload says which.
    ArchiveFormat(String),
    /// The input files are ambiguous or incomplete.
    Conflict(ConflictError),
}

impl ConflictError {
    /// The text of [`ConflictError::message`].
    pub open spec fn message_chars(self) -> Seq<char> {
        match self {
            ConflictError::MultipleArchives => "发现多个 .tar 文件，请只提供一个镜像文件"@,
            ConflictError::MultipleManifests => "发现多个 .json 文件，请只提供一个层列表文件"@,
            ConflictError::NoInputs => "未提供 .tar 或 .json 文件"@,
            ConflictError::NoArchive => "未提供 .tar 镜像文件"@,
            ConflictError::NoManifest => "未提供 .json 层列表文件"@,
        }
    }

    /// A sentence for the user.
    pub fn message(&self) -> (text: String)
        ensures
            text@ == self.message_chars(),
    {
        match self {
            ConflictError::MultipleArchives => "发现多个 .tar 文件，请只提供一个镜像文件".to_owned(),
            ConflictError::MultipleManifests => "发现多个 .json 文件，请只提供一个层列表文件".to_owned(),
            ConflictError::NoInputs => "未提供 .tar 或 .json 文件".to_owned(),
            ConflictError::NoArchive => "未提供 .tar 镜像文件".to_owned(),
            ConflictError::NoManifest => "未提供 .json 层列表文件".to_owned(),
        }
    }
}

impl ParseError {
    /// The text of [`ParseError::message`].
    pub open spec fn message_chars(self) -> Seq<char> {
        match self {
            ParseError::InvalidJson(text) => text@,
            ParseError::LayersNotArray => "JSON 中 Layers 字段不是数组"@,
            ParseError::LayerNotString => "层项不是字符串"@,
        }
    }

    /// A sentence for the user.
    pub fn message(&self) -> (text: String)
        ensures
            text@ == self.message_chars(),
    {
        match self {
            ParseError::InvalidJson(text) => text.clone(),
            ParseError::LayersNotArray => "JSON 中 Layers 字段不是数组".to_owned(),
            ParseError::LayerNotString => "层项不是字符串".to_owned(),
        }
    }
}

impl TrimError {
    /// The text of [`TrimError::message`].
    pub open spec fn message_chars(self) -> Seq<char> {
        match self {
            TrimError::Io(text) => text@,
            TrimError::Parse(e) => e.message_chars(),
            TrimError::ArchiveFormat(text) => text@,
            TrimError::Conflict(e) => e.message_chars(),
        }
    }

    /// A sentence for the user.
    pub fn message(&self) -> (text: String)
        ensures
            text@ == self.message_chars(),
    {
        match self {
            TrimError::Io(text) => text.clone(),
            TrimError::Parse(e) => e.message(),
            TrimError::ArchiveFormat(text) => text.clone(),
            TrimError::Conflict(e) => e.message(),
        }
    }
}

} // verus!
