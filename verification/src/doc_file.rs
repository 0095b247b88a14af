//! A document and the bytes of its file: reading them in with the encoding
//! found, and writing the text back out in it.
use vstd::prelude::*;
use crate::document::Document;
use crate::file_info::{
    decode, decoded_text, encoding_names, is_encoding_name, detect_indentation, detect_linefeed, encode, encode_utf16, encoded_bytes,
    guess_encoding, guessed_encoding, has_utf16be_bom, has_utf16le_bom, has_utf8_bom,
    is_detected_indentation, sniff_bom, spec_detect_linefeed, units_to_bytes, utf16_bytes, utf16_of,
    FileInfo, LineFeed,
};
use crate::history::{History, Snapshot};
use crate::rope_utils::str_eq;
use crate::selection::Selection;
use crate::text::{rope_from_str, rope_text, rope_to_string};

verus! {

pub open spec fn utf8_name() -> Seq<char> {
    seq!['U', 'T', 'F', '-', '8']
}

pub open spec fn utf16le_name() -> Seq<char> {
    seq!['U', 'T', 'F', '-', '1', '6', 'L', 'E']
}

pub open spec fn utf16be_name() -> Seq<char> {
    seq!['U', 'T', 'F', '-', '1', '6', 'B', 'E']
}

/// The length of the byte order mark that `b` starts with (0 without one).
pub open spec fn bom_len(b: Seq<u8>) -> nat {
    if has_utf8_bom(b) {
        3
    } else if has_utf16le_bom(b) || has_utf16be_bom(b) {
        2
    } else {
        0
    }
}

/// The encoding a file's bytes are read with: the one its byte order mark
/// names, or the one guessed from the bytes.
pub open spec fn file_encoding(b: Seq<u8>) -> Seq<char> {
    if has_utf8_bom(b) {
        utf8_name()
    } else if has_utf16le_bom(b) {
        utf16le_name()
    } else if has_utf16be_bom(b) {
        utf16be_name()
    } else {
        guessed_encoding(b)
    }
}

pub open spec fn opt_bytes(o: Option<Vec<u8>>) -> Seq<u8> {
    match o {
        Some(v) => v@,
        None => Seq::empty(),
    }
}

/// The bytes that encode `text` in the encoding named `name`: UTF-16 code
/// units low byte first or high byte first for the two UTF-16 encodings.
pub open spec fn encoded_text(name: Seq<char>, text: Seq<char>) -> Seq<u8> {
    if name == utf16le_name() {
        utf16_bytes(utf16_of(text), true)
    } else if name == utf16be_name() {
        utf16_bytes(utf16_of(text), false)
    } else {
        encoded_bytes(name, text)
    }
}

fn prefix(bytes: &[u8], n: usize) -> (r: Vec<u8>)
    requires
        n <= bytes@.len(),
    ensures
        r@ == bytes@.take(n as int),
{
    let mut r: Vec<u8> = Vec::new();
    for i in 0..n
        invariant
            n <= bytes@.len(),
            r@ =~= bytes@.take(i as int),
    {
        r.push(bytes[i]);
    }
    r
}

/// A file that starts with the UTF-8 byte order mark followed by valid
/// UTF-8 is its mark followed by the UTF-8 encoding of the chars it
/// decodes to: a document read from it (`from_bytes`) and written back
/// unchanged (`encoded_output`) gives back the file's bytes.
pub proof fn lemma_utf8_file_round_trip(b: Seq<u8>)
    requires
        has_utf8_bom(b),
        vstd::utf8::valid_utf8(b.skip(3)),
    ensures
        b.take(bom_len(b) as int) + vstd::utf8::encode_utf8(vstd::utf8::decode_utf8(b.skip(3))) == b,
        file_encoding(b) == utf8_name(),
{
    vstd::utf8::decode_utf8_encode_utf8(b.skip(3));
    assert(b.take(3) + b.skip(3) =~= b);
}

/// The title of a document without a file.
pub open spec fn untitled() -> Seq<char> {
    seq!['U', 'n', 't', 'i', 't', 'l', 'e', 'd']
}

/// An optional text as an optional sequence of chars.
pub open spec fn opt_text(o: Option<String>) -> Option<Seq<char>> {
    match o {
        Some(t) => Some(t@),
        None => None,
    }
}

/// A path that is a file name on every platform: not empty, not `.` or
/// `..`, and without `/`, `\` or `:`.
pub open spec fn is_plain_file_name(p: Seq<char>) -> bool {
    &&& p.len() > 0
    &&& p != seq!['.']
    &&& p != seq!['.', '.']
    &&& !p.contains('/')
    &&& !p.contains('\\')
    &&& !p.contains(':')
}

/// `Path::file_name` of `path`, as text: its last component, if it has
/// one. A path is read by the rules of the platform (its separators), so
/// the result is not named; a plain file name is its own last component
/// on every platform, and a last component is never empty.
#[verifier::external_body]
fn path_file_name(path: &str) -> (r: Option<String>)
    ensures
        is_plain_file_name(path@) ==> opt_text(r) == Some(path@),
        r matches Some(t) ==> t@.len() > 0,
{
    std::path::Path::new(path).file_name().map(|n| n.to_string_lossy().into_owned())
}

impl Document {
    /// The title of the document: the last component of the path of its
    /// file, "Untitled" without a file; `None` for a path without a last
    /// component (one that ends in `..`).
    pub fn title(&self) -> (r: Option<String>)
        ensures
            self.file_name is None ==> (r matches Some(t) && t@ == untitled()),
            self.file_name is Some && is_plain_file_name(self.file_name->Some_0@) ==> opt_text(r) == Some(
                self.file_name->Some_0@,
            ),
            r matches Some(t) ==> t@.len() > 0,
    {
        match &self.file_name {
            Some(f) => path_file_name(f.as_str()),
            None => {
                let t = "Untitled".to_owned();
                proof {
                    reveal_strlit("Untitled");
                    assert(t@ =~= untitled());
                    assert(t@.len() > 0);
                }
                Some(t)
            },
        }
    }

    /// The document held in the bytes of the file `file_name`: decoded with
    /// the encoding its byte order mark names (the mark kept apart) or the
    /// one guessed from the bytes, the line ending and indentation found in
    /// the text (`default_linefeed` where no line ends), the syntax
    /// `syntax`, one cursor at the start and nothing to undo.
    pub fn from_bytes(
        id: usize,
        bytes: &[u8],
        file_name: String,
        syntax: String,
        default_linefeed: LineFeed,
    ) -> (d: Document)
        ensures
            d.wf(),
            d.id == id,
            d.file_info.encoding@ == file_encoding(bytes@),
            is_encoding_name(d.file_info.encoding@),
            opt_bytes(d.file_info.bom) == bytes@.take(bom_len(bytes@) as int),
            d.file_info.bom is Some <==> bom_len(bytes@) > 0,
            d.text() == decoded_text(file_encoding(bytes@), bytes@),
            has_utf8_bom(bytes@) && vstd::utf8::valid_utf8(bytes@.skip(3)) ==> d.text()
                == vstd::utf8::decode_utf8(bytes@.skip(3)),
            d.file_info.linefeed == spec_detect_linefeed(d.text(), default_linefeed),
            is_detected_indentation(d.text(), d.file_info.indentation),
            d.file_info.syntax@ == syntax@,
            d.selections@ == seq![Selection::default_spec()],
            d.history@.top == 0,
            d.history@.stack == Seq::<Snapshot>::empty(),
            d.file_name == Some(file_name),
    {
        let (encoding, bom) = match sniff_bom(bytes) {
            Some((name, n)) => (name, Some(prefix(bytes, n))),
            None => (guess_encoding(bytes), None),
        };
        proof {
            if has_utf8_bom(bytes@) {
                assert(!has_utf16le_bom(bytes@) && !has_utf16be_bom(bytes@));
            }
            if has_utf16le_bom(bytes@) {
                assert(!has_utf16be_bom(bytes@));
            }
            reveal_strlit("UTF-8");
            reveal_strlit("UTF-16LE");
            reveal_strlit("UTF-16BE");
            assert("UTF-8"@ =~= utf8_name());
            assert("UTF-16LE"@ =~= utf16le_name());
            assert("UTF-16BE"@ =~= utf16be_name());
            assert(encoding_names()[24] == utf8_name());
            assert(encoding_names()[23] == utf16le_name());
            assert(encoding_names()[22] == utf16be_name());
        }
        let text = decode(encoding.as_str(), bytes);
        let rope = rope_from_str(text.as_str());
        let linefeed = detect_linefeed(&rope, default_linefeed);
        let indentation = detect_indentation(&rope);
        let mut selections: Vec<Selection> = Vec::new();
        selections.push(Selection::default());
        assert(selections@ =~= seq![Selection::default_spec()]);
        Document {
            id,
            rope,
            history: History::new(),
            file_info: FileInfo { encoding, bom, linefeed, indentation, syntax },
            selections,
            file_name: Some(file_name),
        }
    }

    /// The bytes to write to the document's file: its byte order mark, if
    /// any, then its text in its encoding.
    pub fn encoded_output(&self) -> (r: Vec<u8>)
        requires
            is_encoding_name(self.file_info.encoding@),
        ensures
            r@ == opt_bytes(self.file_info.bom) + encoded_text(self.file_info.encoding@, self.text()),
            self.file_info.encoding@ == utf8_name() ==> r@ == opt_bytes(self.file_info.bom)
                + vstd::utf8::encode_utf8(self.text()),
    {
        let input = rope_to_string(&self.rope);
        proof {
            reveal_strlit("UTF-16LE");
            reveal_strlit("UTF-16BE");
            assert("UTF-16LE"@ =~= utf16le_name());
            assert("UTF-16BE"@ =~= utf16be_name());
        }
        let body = if str_eq(self.file_info.encoding.as_str(), "UTF-16LE") {
            units_to_bytes(&encode_utf16(input.as_str()), true)
        } else if str_eq(self.file_info.encoding.as_str(), "UTF-16BE") {
            units_to_bytes(&encode_utf16(input.as_str()), false)
        } else {
            encode(self.file_info.encoding.as_str(), input.as_str())
        };
        let mut out: Vec<u8> = Vec::new();
        match &self.file_info.bom {
            Some(b) => {
                for i in 0..b.len()
                    invariant
                        out@ =~= b@.take(i as int),
                {
                    out.push(b[i]);
                }
                assert(b@.take(b@.len() as int) =~= b@);
            },
            None => {},
        }
        let ghost pre = out@;
        for i in 0..body.len()
            invariant
                out@ =~= pre + body@.take(i as int),
        {
            out.push(body[i]);
        }
        assert(body@.take(body@.len() as int) =~= body@);
        out
    }

    /// The document was written to the file `path`: it now belongs to that
    /// file and has nothing to undo.
    pub fn mark_saved(&mut self, path: String)
        ensures
            final(self).wf(),
            final(self).file_name == Some(path),
            final(self).history@.top == 0,
            final(self).history@.stack.len() == 0,
            final(self).text() == old(self).text(),
            final(self).selections@ == old(self).selections@,
            final(self).file_info == old(self).file_info,
            final(self).id == old(self).id,
    {
        self.reset_edit_stack();
        self.file_name = Some(path);
    }
}

} // verus!
