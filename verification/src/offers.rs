//! Clipboard offers: the kinds of content that are on offer, and which of them
//! to ask for.

use vstd::prelude::*;

use crate::text;

verus! {

/// The kinds of text that can be read, the best first.
pub open spec fn text_kinds() -> Seq<Seq<char>> {
    seq![
        "text/plain;charset=utf-8"@,
        "text/plain"@,
        "UTF8_STRING"@,
        "TEXT"@,
        "STRING"@,
    ]
}

/// The same text, whatever the case of its ASCII letters.
pub open spec fn same_kind(a: Seq<char>, b: Seq<char>) -> bool {
    text::ascii_lowered(a) == text::ascii_lowered(b)
}

/// The first offer from `i` on of a kind, or the number of offers.
pub open spec fn first_of_kind(mimes: Seq<String>, kind: Seq<char>, i: int) -> int
    decreases mimes.len() - i,
{
    if i >= mimes.len() {
        mimes.len() as int
    } else if same_kind(mimes[i]@, kind) {
        i
    } else {
        first_of_kind(mimes, kind, i + 1)
    }
}

/// The offer to take: the first of the best kind that there is, from the kind
/// at `k` on.
pub open spec fn best_offer(mimes: Seq<String>, k: int) -> Option<int>
    decreases text_kinds().len() - k,
{
    if k >= text_kinds().len() {
        None
    } else {
        let i = first_of_kind(mimes, text_kinds()[k], 0);
        if i < mimes.len() {
            Some(i)
        } else {
            best_offer(mimes, k + 1)
        }
    }
}

fn is_same_kind(a: &str, b: &str) -> (same: bool)
    ensures
        same == same_kind(a@, b@),
{
    let x = text::lower_ascii(text::chars_of(a).as_slice());
    let y = text::lower_ascii(text::chars_of(b).as_slice());
    text::same_chars(x.as_slice(), y.as_slice())
}

fn find_kind(mimes: &[String], kind: &str) -> (i: usize)
    ensures
        i == first_of_kind(mimes@, kind@, 0),
        i <= mimes@.len(),
{
    let mut i: usize = 0;
    while i < mimes.len() && !is_same_kind(mimes[i].as_str(), kind)
        invariant
            i <= mimes@.len(),
            first_of_kind(mimes@, kind@, 0) == first_of_kind(mimes@, kind@, i as int),
        decreases mimes@.len() - i,
    {
        i += 1;
    }
    i
}

/// The kinds of text; see [`text_kinds`].
fn list_kinds() -> (kinds: Vec<&'static str>)
    ensures
        kinds@.len() == text_kinds().len(),
        forall|i: int| 0 <= i < kinds@.len() ==> (#[trigger] kinds@[i])@ == text_kinds()[i],
{
    let mut kinds: Vec<&'static str> = Vec::new();
    kinds.push("text/plain;charset=utf-8");
    kinds.push("text/plain");
    kinds.push("UTF8_STRING");
    kinds.push("TEXT");
    kinds.push("STRING");
    kinds
}

/// The offer of text to take, as it was written; see [`best_offer`].
pub fn pick_text_mime(mimes: &[String]) -> (mime: Option<String>)
    ensures
        mime is Some <==> best_offer(mimes@, 0) is Some,
        mime matches Some(m) ==> 0 <= best_offer(mimes@, 0)->0 < mimes@.len() && m@
            == mimes@[best_offer(mimes@, 0)->0]@,
{
    let kinds = list_kinds();
    let mut k: usize = 0;
    while k < kinds.len()
        invariant
            k <= kinds@.len(),
            kinds@.len() == text_kinds().len(),
            forall|i: int| 0 <= i < kinds@.len() ==> (#[trigger] kinds@[i])@ == text_kinds()[i],
            best_offer(mimes@, 0) == best_offer(mimes@, k as int),
        decreases kinds@.len() - k,
    {
        let i: usize = find_kind(mimes, kinds[k]);
        if i < mimes.len() {
            return Some(mimes[i].as_str().to_owned());
        }
        k += 1;
    }
    None
}

/// What is known of the offers of a clipboard.
pub struct Offers {
    /// The kinds of the newest offer.
    pub mimes: Vec<String>,
    /// It was said what the clipboard holds, if anything.
    pub selection_seen: bool,
}

impl Offers {
    pub fn new() -> (o: Offers)
        ensures
            o.mimes@.len() == 0,
            !o.selection_seen,
    {
        Offers { mimes: Vec::new(), selection_seen: false }
    }

    /// A new offer takes the place of the one before.
    pub fn announced(&mut self)
        ensures
            final(self).mimes@.len() == 0,
            final(self).selection_seen == old(self).selection_seen,
    {
        self.mimes = Vec::new();
    }

    /// The newest offer has another kind.
    pub fn offered(&mut self, mime: String)
        ensures
            final(self).mimes@ == old(self).mimes@.push(mime),
            final(self).selection_seen == old(self).selection_seen,
    {
        self.mimes.push(mime);
    }

    /// It was said what the clipboard holds.
    pub fn selected(&mut self)
        ensures
            final(self).mimes@ == old(self).mimes@,
            final(self).selection_seen,
    {
        self.selection_seen = true;
    }
}

/// What is taken is text: one of the kinds that can be read.
pub proof fn law_picked_offer_is_text(mimes: Seq<String>, k: int)
    requires
        0 <= k,
        best_offer(mimes, k) is Some,
    ensures
        0 <= best_offer(mimes, k)->0 < mimes.len(),
        exists|j: int|
            k <= j < text_kinds().len() && same_kind(
                mimes[best_offer(mimes, k)->0]@,
                #[trigger] text_kinds()[j],
            ),
    decreases text_kinds().len() - k,
{
    if k < text_kinds().len() {
        let i = first_of_kind(mimes, text_kinds()[k], 0);
        lemma_first_of_kind(mimes, text_kinds()[k], 0);
        if i < mimes.len() {
            assert(same_kind(mimes[i]@, text_kinds()[k]));
        } else {
            law_picked_offer_is_text(mimes, k + 1);
        }
    }
}

proof fn lemma_first_of_kind(mimes: Seq<String>, kind: Seq<char>, i: int)
    requires
        0 <= i,
    ensures
        ({
            let n = first_of_kind(mimes, kind, i);
            0 <= n && (n < mimes.len() ==> same_kind(mimes[n]@, kind))
        }),
    decreases mimes.len() - i,
{
    if i < mimes.len() {
        lemma_first_of_kind(mimes, kind, i + 1);
    }
}

} // verus!
