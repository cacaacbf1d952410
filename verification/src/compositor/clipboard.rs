//! Which of a client's copies the browser can take.

use crate::text::same;
use vstd::prelude::*;

verus! {

/// The most that will be read out of one copy. A clipboard is not a file
/// transfer, and the whole of it crosses the socket as one message.
pub const MAX_CLIPBOARD: u64 = 1_048_576;

/// How many spellings of text there are.
pub const TEXT_MIME_COUNT: usize = 6;

/// Text the clipboard is asked for in, best first. Anything else, an image or a
/// list of files, is a copy the browser has no way to take.
pub open spec fn text_mime(rank: int) -> Seq<char> {
    if rank == 0 {
        "text/plain;charset=utf-8"@
    } else if rank == 1 {
        "text/plain"@
    } else if rank == 2 {
        "UTF8_STRING"@
    } else if rank == 3 {
        "STRING"@
    } else if rank == 4 {
        "TEXT"@
    } else {
        "text/plain;charset=UTF-8"@
    }
}

/// The spelling of text of a given rank.
pub fn nth_text_mime(rank: usize) -> (mime: &'static str)
    requires
        rank < TEXT_MIME_COUNT,
    ensures
        mime@ == text_mime(rank as int),
{
    if rank == 0 {
        "text/plain;charset=utf-8"
    } else if rank == 1 {
        "text/plain"
    } else if rank == 2 {
        "UTF8_STRING"
    } else if rank == 3 {
        "STRING"
    } else if rank == 4 {
        "TEXT"
    } else {
        "text/plain;charset=UTF-8"
    }
}

/// Every spelling of text, best first: what a selection of the browser's is
/// offered as.
pub fn text_mimes() -> (mimes: Vec<String>)
    ensures
        mimes@.len() == TEXT_MIME_COUNT,
        forall|i: int| 0 <= i < TEXT_MIME_COUNT ==> (#[trigger] mimes@[i])@ == text_mime(i),
{
    let mut mimes: Vec<String> = Vec::new();
    let mut rank: usize = 0;
    while rank < TEXT_MIME_COUNT
        invariant
            rank <= TEXT_MIME_COUNT,
            mimes@.len() == rank,
            forall|i: int| 0 <= i < rank ==> (#[trigger] mimes@[i])@ == text_mime(i),
        decreases TEXT_MIME_COUNT - rank,
    {
        mimes.push(nth_text_mime(rank).to_owned());
        rank = rank + 1;
    }
    mimes
}

/// Whether a type is among those offered.
pub open spec fn is_offered(offered: Seq<String>, mime: Seq<char>) -> bool {
    exists|i: int| 0 <= i < offered.len() && (#[trigger] offered[i])@ == mime
}

/// Whether this rank is the best that is offered.
pub open spec fn is_best(offered: Seq<String>, rank: int) -> bool {
    &&& 0 <= rank < TEXT_MIME_COUNT
    &&& is_offered(offered, text_mime(rank))
    &&& forall|better: int| 0 <= better < rank ==> !is_offered(offered, #[trigger] text_mime(better))
}

fn offers(offered: &[String], mime: &str) -> (found: bool)
    ensures
        found == is_offered(offered@, mime@),
{
    let mut i: usize = 0;
    while i < offered.len()
        invariant
            i <= offered@.len(),
            forall|j: int| 0 <= j < i ==> (#[trigger] offered@[j])@ != mime@,
        decreases offered@.len() - i,
    {
        if same(offered[i].as_str(), mime) {
            assert(offered@[i as int]@ == mime@);
            return true;
        }
        i = i + 1;
    }
    false
}

/// The best of what a client is offering, or nothing when none of it is text.
///
/// Order matters: a client that offers several spellings and means different
/// encodings is answering in whichever was asked for, so the one is asked for
/// whose encoding is not a guess.
pub fn preferred_mime(offered: &[String]) -> (mime: Option<&'static str>)
    ensures
        match mime {
            Some(best) => exists|rank: int|
                is_best(offered@, rank) && best@ == #[trigger] text_mime(rank),
            None => forall|rank: int|
                0 <= rank < TEXT_MIME_COUNT ==> !is_offered(offered@, #[trigger] text_mime(rank)),
        },
{
    let mut rank: usize = 0;
    while rank < TEXT_MIME_COUNT
        invariant
            rank <= TEXT_MIME_COUNT,
            forall|better: int|
                0 <= better < rank ==> !is_offered(offered@, #[trigger] text_mime(better)),
        decreases TEXT_MIME_COUNT - rank,
    {
        let mime = nth_text_mime(rank);
        if offers(offered, mime) {
            assert(is_best(offered@, rank as int));
            assert(mime@ == text_mime(rank as int));
            return Some(mime);
        }
        rank = rank + 1;
    }
    None
}

/// A copy is asked for in the spelling whose encoding is least of a guess: UTF-8
/// before anything else, plain text before the names that X gives it. What is
/// asked for was offered, and a copy that is no text is not asked for at all.
pub proof fn the_best_spelling_is_asked_for(offered: &[String], mime: Option<&'static str>)
    requires
        call_ensures(preferred_mime, (offered,), mime),
    ensures
        is_offered(offered@, "text/plain;charset=utf-8"@) ==> mime is Some && mime->0@
            == "text/plain;charset=utf-8"@,
        !is_offered(offered@, "text/plain;charset=utf-8"@) && is_offered(offered@, "text/plain"@)
            ==> mime is Some && mime->0@ == "text/plain"@,
        mime matches Some(text) ==> is_offered(offered@, text@),
        mime is None ==> !is_offered(offered@, "UTF8_STRING"@) && !is_offered(offered@, "STRING"@)
            && !is_offered(offered@, "TEXT"@) && !is_offered(
            offered@,
            "text/plain;charset=UTF-8"@,
        ),
{
    assert(text_mime(0) == "text/plain;charset=utf-8"@);
    assert(text_mime(1) == "text/plain"@);
    assert(text_mime(2) == "UTF8_STRING"@);
    assert(text_mime(3) == "STRING"@);
    assert(text_mime(4) == "TEXT"@);
    assert(text_mime(5) == "text/plain;charset=UTF-8"@);
    if let Some(text) = mime {
        let rank = choose|rank: int|
            is_best(offered@, rank) && text@ == #[trigger] text_mime(rank);
        if is_offered(offered@, text_mime(0)) {
            assert(rank == 0);
        } else if is_offered(offered@, text_mime(1)) {
            assert(rank != 0);
            assert(rank <= 1);
        }
    }
}

/// Text has a few spellings, and each stands at one rank.
pub proof fn every_spelling_has_its_own_rank(i: int, j: int)
    requires
        0 <= i < j < TEXT_MIME_COUNT,
    ensures
        text_mime(i) != text_mime(j),
{
    reveal_strlit("text/plain;charset=utf-8");
    reveal_strlit("text/plain");
    reveal_strlit("UTF8_STRING");
    reveal_strlit("STRING");
    reveal_strlit("TEXT");
    reveal_strlit("text/plain;charset=UTF-8");
    assert("text/plain;charset=utf-8"@.len() == 24 && "text/plain;charset=UTF-8"@.len() == 24);
    assert("text/plain"@.len() == 10 && "UTF8_STRING"@.len() == 11);
    assert("STRING"@.len() == 6 && "TEXT"@.len() == 4);
    assert("text/plain;charset=utf-8"@[19] == 'u' && "text/plain;charset=UTF-8"@[19] == 'U');
}

} // verus!
