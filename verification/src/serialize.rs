//! The encoding direction. Of the scalars only booleans are written.

use vstd::prelude::*;
use vstd::string::StringExecFns;

verus! {

/// A serializer that writes into `W`.
pub struct Serializer<W> {
    writer: W,
}

/// The text that stands for a boolean.
pub open spec fn bool_text(v: bool) -> Seq<char> {
    if v {
        "true"@
    } else {
        "false"@
    }
}

impl<W> View for Serializer<W> {
    type V = W;

    closed spec fn view(&self) -> W {
        self.writer
    }
}

impl<W> Serializer<W> {
    /// A serializer that writes into `writer`.
    pub fn new(writer: W) -> (serializer: Self)
        ensures
            serializer@ == writer,
    {
        Serializer { writer }
    }

    /// Gives the writer back, with what was written into it.
    pub fn into_inner(self) -> (writer: W)
        ensures
            writer == self@,
    {
        self.writer
    }
}

impl Serializer<String> {
    /// Writes the text of the boolean `v` behind what the writer holds, and
    /// gives the writer back.
    pub fn serialize_bool(self, v: bool) -> (written: String)
        ensures
            written@ == self@@ + bool_text(v),
    {
        let mut writer = self.writer;
        if v {
            writer.append("true");
        } else {
            writer.append("false");
        }
        writer
    }
}

} // verus!
