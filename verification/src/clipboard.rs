//! The text clipboard, and what has been synchronised already.

use crate::clipboard_files;
use crate::clipboard_files::FileStamp;
use crate::proto;
use std::hash::DefaultHasher;
use std::hash::Hasher;
use vstd::prelude::*;
use vstd::std_specs::hash::*;
use vstd::string::*;
use vstd::utf8::*;

verus! {

/// What is hashed for a string: its UTF-8 and a byte that occurs in no UTF-8.
pub open spec fn text_writes(text: Seq<char>) -> Seq<Seq<u8>> {
    seq![encode_utf8(text), seq![0xFFu8]]
}

/// A fingerprint of a text, for telling whether the clipboard has changed. It is
/// compared within one process only.
pub fn fingerprint(text: &str) -> (r: u64)
    ensures
        r == DefaultHasher::spec_finish(text_writes(text@)),
{
    let mut h = DefaultHasher::new();
    hash_text(&mut h, text);
    assert(h@ =~= text_writes(text@));
    h.finish()
}

pub(crate) fn hash_text(h: &mut DefaultHasher, text: &str)
    ensures
        final(h)@ == old(h)@ + text_writes(text@),
{
    let end: [u8; 1] = [0xFF];
    h.write(text.as_bytes());
    h.write(end.as_slice());
    assert(end@ =~= seq![0xFFu8]);
    assert(h@ =~= old(h)@ + text_writes(text@));
}

/// The text is worth sending: there is some, and it fits in a message.
pub open spec fn admissible(text: Seq<char>) -> bool {
    text.len() > 0 && encode_utf8(text).len() <= proto::CLIPBOARD_MAX
}

/// The text that was read from the clipboard, if it is to be synchronised: `None`
/// when it is empty or longer than `CLIPBOARD_MAX` bytes.
pub fn admit_text(text: String) -> (r: Option<String>)
    ensures
        r is Some == admissible(text@),
        r is None <==> text@.len() == 0 || encode_utf8(text@).len() > proto::CLIPBOARD_MAX,
        r matches Some(t) ==> t@ == text@,
{
    let len: usize = text.as_str().as_bytes().len();
    proof {
        if text@.len() == 0 {
            assert(text@ =~= Seq::<char>::empty());
        }
        encoding_is_empty(text@);
    }
    if len == 0 || len > proto::CLIPBOARD_MAX {
        None
    } else {
        Some(text)
    }
}

proof fn encoding_is_empty(text: Seq<char>)
    ensures
        encode_utf8(text).len() == 0 <==> text.len() == 0,
{
    if text.len() > 0 {
        let head = encode_scalar(text[0] as u32);
        assert(head.len() > 0);
    }
}

/// What to send of the clipboard.
#[derive(Debug, Clone, Copy, PartialEq, Eq, Structural)]
pub enum Offer {
    /// The files that it holds.
    Files,
    /// The text that it holds.
    Text,
    /// It holds nothing, or what was synchronised last.
    Nothing,
}

/// What the clipboard holds that can be synchronised, as its fingerprint. Files come
/// before text: where files were copied, the text is only their names.
pub open spec fn content(files: Seq<FileStamp>, text: Option<Seq<char>>) -> Option<(Offer, u64)> {
    if files.len() > 0 {
        Some((Offer::Files, clipboard_files::files_print(files)))
    } else {
        match text {
            Some(t) => Some((Offer::Text, clipboard_files::text_print(t))),
            None => None,
        }
    }
}

/// The fingerprint of what was synchronised last, in either direction. Unchanged
/// content is neither sent again nor echoed, and reconnecting keeps the memory.
#[derive(Debug, Clone, Copy, PartialEq, Eq)]
pub struct Synced {
    pub last: Option<u64>,
}

/// What `Synced::offer` answers.
pub open spec fn offered(
    last: Option<u64>,
    files: Seq<FileStamp>,
    text: Option<Seq<char>>,
) -> Offer {
    match content(files, text) {
        Some((what, print)) => if last == Some(print) {
            Offer::Nothing
        } else {
            what
        },
        None => Offer::Nothing,
    }
}

/// What `Synced::offer` remembers.
pub open spec fn remembered(
    last: Option<u64>,
    files: Seq<FileStamp>,
    text: Option<Seq<char>>,
) -> Option<u64> {
    match content(files, text) {
        Some((_, print)) => Some(print),
        None => last,
    }
}

impl Synced {
    /// Nothing has been synchronised.
    pub fn new() -> (r: Synced)
        ensures
            r.last is None,
    {
        Synced { last: None }
    }

    /// What to send now that control changes hands: what the clipboard holds, unless
    /// that was synchronised last.
    pub fn offer(&mut self, files: &Vec<FileStamp>, text: Option<&String>) -> (r: Offer)
        ensures
            r == offered(
                old(self).last,
                files@,
                match text {
                    Some(t) => Some(t@),
                    None => None,
                },
            ),
            final(self).last == remembered(
                old(self).last,
                files@,
                match text {
                    Some(t) => Some(t@),
                    None => None,
                },
            ),
    {
        if files.len() > 0 {
            let print: u64 = clipboard_files::fingerprint(files);
            if self.renew(print) {
                Offer::Files
            } else {
                Offer::Nothing
            }
        } else if let Some(t) = text {
            let print: u64 = clipboard_files::fingerprint_text(t.as_str());
            if self.renew(print) {
                Offer::Text
            } else {
                Offer::Nothing
            }
        } else {
            Offer::Nothing
        }
    }

    /// The peer has sent this text.
    pub fn received_text(&mut self, text: &str)
        ensures
            final(self).last == Some(clipboard_files::text_print(text@)),
    {
        self.last = Some(clipboard_files::fingerprint_text(text));
    }

    /// The peer has sent these files, now stored here.
    pub fn received_files(&mut self, files: &Vec<FileStamp>)
        ensures
            final(self).last == Some(clipboard_files::files_print(files@)),
    {
        self.last = Some(clipboard_files::fingerprint(files));
    }

    fn renew(&mut self, print: u64) -> (r: bool)
        ensures
            r == (old(self).last != Some(print)),
            final(self).last == Some(print),
    {
        let changed = match self.last {
            Some(last) => last != print,
            None => true,
        };
        self.last = Some(print);
        changed
    }
}

/// Content that was offered is not offered again, whatever was synchronised before.
pub proof fn unchanged_is_not_resent(
    last: Option<u64>,
    files: Seq<FileStamp>,
    text: Option<Seq<char>>,
)
    ensures
        offered(remembered(last, files, text), files, text) == Offer::Nothing,
        remembered(remembered(last, files, text), files, text) == remembered(last, files, text),
{
}

/// Text that came from the peer is not sent back, and neither are files.
pub proof fn no_echo(text: Seq<char>, files: Seq<FileStamp>)
    ensures
        offered(Some(clipboard_files::text_print(text)), Seq::empty(), Some(text))
            == Offer::Nothing,
        files.len() > 0 ==> forall|t: Option<Seq<char>>|
            #[trigger] offered(Some(clipboard_files::files_print(files)), files, t)
                == Offer::Nothing,
{
}

/// Content whose fingerprint is not the remembered one is sent.
pub proof fn changed_is_sent(last: Option<u64>, files: Seq<FileStamp>, text: Option<Seq<char>>)
    ensures
        content(files, text) matches Some((what, print)) ==> last != Some(print) ==> offered(
            last,
            files,
            text,
        ) == what && what != Offer::Nothing,
{
}

/// What is synchronised of the clipboard's text is a matter of its length in bytes alone,
/// whatever characters it is made of: all but the empty text and one of over a mebibyte.
pub proof fn only_the_length_counts(text: Seq<char>, other: Seq<char>)
    ensures
        admissible(text) <==> 0 < encode_utf8(text).len() <= 0x10_0000,
        encode_utf8(text).len() == encode_utf8(other).len() ==> (admissible(text) <==> admissible(
            other,
        )),
        admissible(text) && 0 < encode_utf8(other).len() <= encode_utf8(text).len() ==> admissible(
            other,
        ),
{
    encoding_is_empty(text);
    encoding_is_empty(other);
}

/// With nothing synchronised yet, what the clipboard holds is sent: the files if there
/// are any, or else the text if there is any.
pub proof fn first_offer(files: Seq<FileStamp>, text: Option<Seq<char>>)
    ensures
        offered(None, files, text) is Files <==> files.len() > 0,
        offered(None, files, text) is Text <==> files.len() == 0 && text is Some,
        offered(None, files, text) is Nothing <==> files.len() == 0 && text is None,
{
}

/// Whatever was synchronised last, an offer is of files only where there are some and
/// of text only where there are none; an empty clipboard leaves the memory alone, and
/// any other replaces it.
pub proof fn any_offer(last: Option<u64>, files: Seq<FileStamp>, text: Option<Seq<char>>)
    ensures
        offered(last, files, text) is Files ==> files.len() > 0,
        offered(last, files, text) is Text ==> files.len() == 0 && text is Some,
        files.len() == 0 && text is None ==> offered(last, files, text) is Nothing && remembered(
            last,
            files,
            text,
        ) == last,
        files.len() > 0 ==> remembered(last, files, text) == Some(
            clipboard_files::files_print(files),
        ),
        files.len() == 0 ==> (text matches Some(t) ==> remembered(last, files, text) == Some(
            clipboard_files::text_print(t),
        )),
        offered(last, files, text) is Nothing <==> remembered(last, files, text) == last,
{
}

/// What is hashed for a text tells it from every other text.
pub proof fn texts_are_told_apart(a: Seq<char>, b: Seq<char>)
    requires
        text_writes(a) == text_writes(b),
    ensures
        a == b,
{
    assert(text_writes(a)[0] == text_writes(b)[0]);
    encode_utf8_decode_utf8(a);
    encode_utf8_decode_utf8(b);
}

} // verus!
