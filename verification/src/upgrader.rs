//! The editor: it collects the edits of the file being walked, hands them over as a
//! patch, and applies a patch to the text of a file.

use crate::splice::{ordered_and_merged, ordered_is_sorted, ordered_lies_in_order, sorted_stays_ordered};
use ra_ap_text_edit::{TextEdit, TextEditBuilder};
use vstd::prelude::*;
use vstd::utf8::{encode_utf8, is_char_boundary};

verus! {

/// A half-open span of byte offsets into the text of one file.
#[derive(Clone, Copy, Debug, PartialEq, Eq, Structural)]
pub struct TextRange {
    pub start: u32,
    pub end: u32,
}

impl TextRange {
    /// The span from `start` up to `end`.
    pub fn new(start: u32, end: u32) -> (r: TextRange)
        ensures
            r.start == start,
            r.end == end,
    {
        TextRange { start, end }
    }

    /// The empty span at `offset`.
    pub fn empty(offset: u32) -> (r: TextRange)
        ensures
            r.start == offset,
            r.end == offset,
    {
        TextRange { start: offset, end: offset }
    }
}

/// What has a span in the text: a span itself, or a piece of syntax that may be absent.
pub trait ToTextRange: Sized {
    /// Whether there is a span.
    spec fn has_range(&self) -> bool;

    /// The span, where there is one.
    spec fn range(&self) -> TextRange;

    /// The span. What is absent has none and cannot be asked for it.
    fn to(self) -> (r: TextRange)
        requires
            self.has_range(),
        ensures
            r == self.range(),
    ;
}

impl ToTextRange for TextRange {
    open spec fn has_range(&self) -> bool {
        true
    }

    open spec fn range(&self) -> TextRange {
        *self
    }

    fn to(self) -> (r: TextRange) {
        self
    }
}

/// One edit: the bytes of `range` are replaced by `insert`.
#[derive(Clone, Debug)]
pub struct Edit {
    pub range: TextRange,
    pub insert: String,
}

/// What an edit is in contracts: offsets into the bytes of the text as it was, and the
/// bytes put there.
pub struct Indel {
    pub start: int,
    pub end: int,
    pub insert: Seq<u8>,
}

impl View for Edit {
    type V = Indel;

    open spec fn view(&self) -> Indel {
        Indel {
            start: self.range.start as int,
            end: self.range.end as int,
            insert: encode_utf8(self.insert@),
        }
    }
}

/// The edits of a vector, each by its view.
pub open spec fn indels_of(edits: Seq<Edit>) -> Seq<Indel> {
    edits.map_values(|e: Edit| e@)
}

/// Two edits touch no common byte of the text.
pub open spec fn disjoint(a: Indel, b: Indel) -> bool {
    a.end <= b.start || b.end <= a.start
}

/// No two of the edits overlap.
pub open spec fn pairwise_disjoint(s: Seq<Indel>) -> bool {
    forall|i: int, j: int| 0 <= i < j < s.len() ==> disjoint(#[trigger] s[i], #[trigger] s[j])
}

/// Every span runs forward.
pub open spec fn well_formed(s: Seq<Indel>) -> bool {
    forall|i: int| 0 <= i < s.len() ==> 0 <= (#[trigger] s[i]).start <= s[i].end
}

/// Ascending, and no span reaches into a later one.
pub open spec fn sorted_disjoint(s: Seq<Indel>) -> bool {
    &&& well_formed(s)
    &&& forall|i: int, j: int| 0 <= i < j < s.len() ==> (#[trigger] s[i]).end <= (#[trigger] s[j]).start
}

/// Every span lies within `text` and starts and ends between two characters.
pub open spec fn within(s: Seq<Indel>, text: Seq<u8>) -> bool {
    forall|i: int|
        0 <= i < s.len() ==> {
            &&& 0 <= (#[trigger] s[i]).start <= s[i].end <= text.len()
            &&& is_char_boundary(text, s[i].start)
            &&& is_char_boundary(text, s[i].end)
        }
}

/// The number of bytes that the edits insert, all together.
pub open spec fn inserted_len(s: Seq<Indel>) -> int
    decreases s.len(),
{
    if s.len() == 0 {
        0
    } else {
        inserted_len(s.drop_last()) + s.last().insert.len()
    }
}

/// The order of two edits by where their spans start, then by where they end.
pub open spec fn key_le(a: Indel, b: Indel) -> bool {
    a.start < b.start || (a.start == b.start && a.end <= b.end)
}

/// `x` put into the ordered `s` behind every edit whose span is not greater.
pub open spec fn placed(s: Seq<Indel>, x: Indel) -> Seq<Indel>
    decreases s.len(),
{
    if s.len() == 0 || key_le(s.last(), x) {
        s.push(x)
    } else {
        placed(s.drop_last(), x).push(s.last())
    }
}

/// The edits in ascending order of their spans; edits of one span stay in the order
/// in which they were made.
pub open spec fn ordered(s: Seq<Indel>) -> Seq<Indel>
    decreases s.len(),
{
    if s.len() == 0 {
        s
    } else {
        placed(ordered(s.drop_last()), s.last())
    }
}

/// Neighbours of which the first ends where the second starts, joined into one edit.
pub open spec fn merged(s: Seq<Indel>) -> Seq<Indel>
    decreases s.len(),
{
    if s.len() <= 1 {
        s
    } else {
        let front = merged(s.drop_last());
        let a = front.last();
        let b = s.last();
        if a.end == b.start {
            front.drop_last().push(Indel { start: a.start, end: b.end, insert: a.insert + b.insert })
        } else {
            front.push(b)
        }
    }
}

/// `text` with the bytes of one span replaced.
pub open spec fn replaced(text: Seq<u8>, e: Indel) -> Seq<u8> {
    text.subrange(0, e.start) + e.insert + text.subrange(e.end, text.len() as int)
}

/// `text` after the edits of `s` were made one by one, the last of `s` first.
pub open spec fn applied(text: Seq<u8>, s: Seq<Indel>) -> Seq<u8>
    decreases s.len(),
{
    if s.len() == 0 {
        text
    } else {
        applied(replaced(text, s.last()), s.drop_last())
    }
}

/// What a patch makes of a text: its edits ordered, joined and made from the back.
pub open spec fn patched(text: Seq<u8>, s: Seq<Indel>) -> Seq<u8> {
    applied(text, merged(ordered(s)))
}

/// A patch can be applied to `text`: spans run forward, lie in the text between
/// characters and do not overlap, and the result stays within 32-bit offsets.
pub open spec fn applicable(s: Seq<Indel>, text: Seq<u8>) -> bool {
    &&& within(s, text)
    &&& pairwise_disjoint(s)
    &&& text.len() + inserted_len(s) <= u32::MAX
}

#[verifier::external_type_specification]
#[verifier::external_body]
pub struct ExTextEditBuilder(TextEditBuilder);

#[verifier::external_type_specification]
#[verifier::external_body]
pub struct ExTextEdit(TextEdit);

/// The edits that a `TextEditBuilder` holds, in the order in which it holds them.
pub uninterp spec fn builder_edits(builder: TextEditBuilder) -> Seq<Indel>;

/// What a builder holds once it took `x`: while it holds at most sixteen edits it keeps
/// them ordered, a later one it puts at the end.
pub open spec fn held_after(held: Seq<Indel>, x: Indel) -> Seq<Indel> {
    if held.len() + 1 <= 16 {
        ordered(held.push(x))
    } else {
        held.push(x)
    }
}

/// The edits that a `TextEdit` holds, in the order in which it holds them.
pub uninterp spec fn text_edit_indels(edit: TextEdit) -> Seq<Indel>;

/// `TextEdit::builder`: a builder that holds no edit.
#[verifier::external_body]
fn builder_new() -> (builder: TextEditBuilder)
    ensures
        builder_edits(builder) == Seq::<Indel>::empty(),
{
    TextEdit::builder()
}

/// `TextEditBuilder::replace`: the builder takes one more edit at its end and, while it
/// holds at most sixteen, sorts what it holds by the spans, edits of one span staying in
/// their order. It panics on a span that runs backwards and, while it sorts, where two
/// of its edits overlap.
#[verifier::external_body]
fn builder_replace(builder: &mut TextEditBuilder, range: TextRange, insert: String)
    requires
        range.start <= range.end,
        sorted_disjoint(
            ordered(
                builder_edits(*old(builder)).push(
                    Indel {
                        start: range.start as int,
                        end: range.end as int,
                        insert: encode_utf8(insert@),
                    },
                ),
            ),
        ),
    ensures
        builder_edits(*final(builder)) == held_after(
            builder_edits(*old(builder)),
            Indel { start: range.start as int, end: range.end as int, insert: encode_utf8(insert@) },
        ),
{
    builder.replace(ra_ap_text_edit::TextRange::new(range.start.into(), range.end.into()), insert)
}

/// `TextEditBuilder::finish`: sorts the edits by their spans, keeping edits of one span in
/// their order, and joins neighbours that touch. It panics where two edits overlap.
#[verifier::external_body]
fn builder_finish(builder: TextEditBuilder) -> (edit: TextEdit)
    requires
        sorted_disjoint(ordered(builder_edits(builder))),
    ensures
        text_edit_indels(edit) == merged(ordered(builder_edits(builder))),
{
    builder.finish()
}

/// `TextEdit::apply`: makes the edits one by one, the last first, each by replacing the
/// bytes of its span. It panics where a span leaves the text or splits a character, or
/// where a length passes 32 bits.
#[verifier::external_body]
fn text_edit_apply(edit: &TextEdit, text: &mut String)
    requires
        sorted_disjoint(text_edit_indels(*edit)),
        within(text_edit_indels(*edit), encode_utf8(old(text)@)),
        encode_utf8(old(text)@).len() + inserted_len(text_edit_indels(*edit)) <= u32::MAX,
    ensures
        encode_utf8(final(text)@) == applied(encode_utf8(old(text)@), text_edit_indels(*edit)),
{
    edit.apply(text)
}

/// Whether every span runs forward and lies within `text`, between characters.
fn spans_fit(edits: &Vec<Edit>, text: &str) -> (ok: bool)
    ensures
        ok == within(indels_of(edits@), encode_utf8(text@)),
{
    let len: usize = text.as_bytes().len();
    let mut i: usize = 0;
    while i < edits.len()
        invariant
            i <= edits.len(),
            len == encode_utf8(text@).len(),
            within(indels_of(edits@).take(i as int), encode_utf8(text@)),
        decreases edits.len() - i,
    {
        let start: usize = edits[i].range.start as usize;
        let end: usize = edits[i].range.end as usize;
        if !(start <= end && end <= len && text.is_char_boundary(start) && text.is_char_boundary(
            end,
        )) {
            assert(indels_of(edits@)[i as int] == edits@[i as int]@);
            return false;
        }
        proof {
            let s = indels_of(edits@);
            assert forall|k: int| 0 <= k < s.take(i + 1).len() implies {
                &&& 0 <= (#[trigger] s.take(i + 1)[k]).start <= s.take(i + 1)[k].end
                    <= encode_utf8(text@).len()
                &&& is_char_boundary(encode_utf8(text@), s.take(i + 1)[k].start)
                &&& is_char_boundary(encode_utf8(text@), s.take(i + 1)[k].end)
            } by {
                if k < i {
                    assert(s.take(i + 1)[k] == s.take(i as int)[k]);
                }
            }
        }
        i += 1;
    }
    assert(indels_of(edits@).take(i as int) == indels_of(edits@));
    true
}

/// Whether no two of the edits overlap.
fn spans_disjoint(edits: &Vec<Edit>) -> (ok: bool)
    ensures
        ok == pairwise_disjoint(indels_of(edits@)),
{
    let n: usize = edits.len();
    let mut j: usize = 0;
    while j < n
        invariant
            j <= n,
            n == edits.len(),
            pairwise_disjoint(indels_of(edits@).take(j as int)),
        decreases n - j,
    {
        let mut i: usize = 0;
        while i < j
            invariant
                i <= j < n,
                n == edits.len(),
                forall|k: int|
                    0 <= k < i ==> disjoint(
                        #[trigger] indels_of(edits@)[k],
                        indels_of(edits@)[j as int],
                    ),
            decreases j - i,
        {
            let a = &edits[i];
            let b = &edits[j];
            if !(a.range.end <= b.range.start || b.range.end <= a.range.start) {
                assert(indels_of(edits@)[i as int] == a@);
                assert(indels_of(edits@)[j as int] == b@);
                assert(!disjoint(indels_of(edits@)[i as int], indels_of(edits@)[j as int]));
                return false;
            }
            i += 1;
        }
        proof {
            let s = indels_of(edits@);
            assert forall|a: int, b: int| 0 <= a < b < s.take(j + 1).len() implies disjoint(
                #[trigger] s.take(j + 1)[a],
                #[trigger] s.take(j + 1)[b],
            ) by {
                if b < j {
                    assert(s.take(j + 1)[a] == s.take(j as int)[a]);
                    assert(s.take(j + 1)[b] == s.take(j as int)[b]);
                }
            }
        }
        j += 1;
    }
    assert(indels_of(edits@).take(j as int) == indels_of(edits@));
    true
}

/// Whether the text, grown by all that the edits insert, stays within 32-bit offsets.
fn lengths_fit(edits: &Vec<Edit>, text_len: usize) -> (ok: bool)
    ensures
        ok == (text_len + inserted_len(indels_of(edits@)) <= u32::MAX),
{
    let cap: u64 = 0x1_0000_0000;
    if text_len as u64 >= cap {
        proof {
            inserted_len_is_natural(indels_of(edits@));
        }
        return false;
    }
    let mut total: u64 = text_len as u64;
    let mut i: usize = 0;
    while i < edits.len()
        invariant
            i <= edits.len(),
            cap == 0x1_0000_0000,
            inserted_len(indels_of(edits@).take(i as int)) >= 0,
            total as int == if text_len + inserted_len(indels_of(edits@).take(i as int)) < cap {
                text_len + inserted_len(indels_of(edits@).take(i as int))
            } else {
                cap as int
            },
        decreases edits.len() - i,
    {
        let more: usize = edits[i].insert.as_str().as_bytes().len();
        proof {
            let s = indels_of(edits@);
            assert(s.take(i + 1).drop_last() == s.take(i as int));
            assert(s.take(i + 1).last() == edits@[i as int]@);
        }
        if more as u64 >= cap - total {
            total = cap;
        } else {
            total = total + more as u64;
        }
        i += 1;
    }
    assert(indels_of(edits@).take(i as int) == indels_of(edits@));
    total < cap
}

/// The edits never insert a negative number of bytes.
proof fn inserted_len_is_natural(s: Seq<Indel>)
    ensures
        inserted_len(s) >= 0,
    decreases s.len(),
{
    if s.len() > 0 {
        inserted_len_is_natural(s.drop_last());
    }
}

/// The edits collected for the file that is being walked.
#[derive(Debug, Clone)]
pub struct Upgrader {
    edits: Vec<Edit>,
}

/// The edits of one file, as the walk over it left them.
#[derive(Debug, Clone)]
pub struct Patch {
    edits: Vec<Edit>,
}

impl View for Upgrader {
    type V = Seq<Indel>;

    closed spec fn view(&self) -> Seq<Indel> {
        indels_of(self.edits@)
    }
}

impl View for Patch {
    type V = Seq<Indel>;

    closed spec fn view(&self) -> Seq<Indel> {
        indels_of(self.edits@)
    }
}

impl Default for Upgrader {
    fn default() -> (r: Upgrader)
        ensures
            r@ == Seq::<Indel>::empty(),
    {
        Upgrader::new()
    }
}

impl Upgrader {
    /// An editor that holds no edit.
    pub fn new() -> (r: Upgrader)
        ensures
            r@ == Seq::<Indel>::empty(),
    {
        let r = Upgrader { edits: Vec::new() };
        assert(r@ =~= Seq::<Indel>::empty());
        r
    }

    /// Records one edit behind those already held.
    pub fn push(&mut self, edit: Edit)
        ensures
            final(self)@ == old(self)@.push(edit@),
    {
        self.edits.push(edit);
        assert(final(self)@ =~= old(self)@.push(edit@));
    }

    /// Records that the bytes of the span of `range` are to become `replace_with`.
    pub fn replace<T: ToTextRange>(&mut self, range: T, replace_with: &str)
        requires
            range.has_range(),
        ensures
            final(self)@ == old(self)@.push(
                Indel {
                    start: range.range().start as int,
                    end: range.range().end as int,
                    insert: encode_utf8(replace_with@),
                },
            ),
    {
        let span = range.to();
        self.push(Edit { range: span, insert: String::from_str(replace_with) });
    }

    /// Records that the bytes of the span of `range` are to go.
    pub fn delete<T: ToTextRange>(&mut self, range: T)
        requires
            range.has_range(),
        ensures
            final(self)@ == old(self)@.push(
                Indel {
                    start: range.range().start as int,
                    end: range.range().end as int,
                    insert: Seq::<u8>::empty(),
                },
            ),
    {
        let span = range.to();
        let nothing = String::new();
        assert(encode_utf8(nothing@) =~= Seq::<u8>::empty());
        self.push(Edit { range: span, insert: nothing });
    }

    /// Records that `text` is to be put in at `offset`.
    pub fn insert(&mut self, offset: u32, text: String)
        ensures
            final(self)@ == old(self)@.push(
                Indel { start: offset as int, end: offset as int, insert: encode_utf8(text@) },
            ),
    {
        self.push(Edit { range: TextRange::empty(offset), insert: text });
    }

    /// Reserved for changes to the manifest's dependencies; it records nothing.
    pub fn add_dep(&mut self)
        ensures
            final(self)@ == old(self)@,
    {
    }

    /// Reserved for changes to the manifest's features; it records nothing.
    pub fn add_feature(&mut self)
        ensures
            final(self)@ == old(self)@,
    {
    }

    /// The number of edits held.
    pub fn len(&self) -> (n: usize)
        ensures
            n == self@.len(),
    {
        self.edits.len()
    }

    /// Hands over the edits held as a patch and starts anew for the next file.
    pub fn finish(&mut self) -> (patch: Patch)
        ensures
            patch@ == old(self)@,
            final(self)@ == Seq::<Indel>::empty(),
    {
        let mut edits: Vec<Edit> = Vec::new();
        std::mem::swap(&mut edits, &mut self.edits);
        assert(final(self)@ =~= Seq::<Indel>::empty());
        Patch { edits }
    }
}

impl Patch {
    /// The number of edits in the patch.
    pub fn len(&self) -> (n: usize)
        ensures
            n == self@.len(),
    {
        self.edits.len()
    }

    /// Whether the patch holds no edit.
    pub fn is_empty(&self) -> (b: bool)
        ensures
            b == (self@.len() == 0),
    {
        self.edits.len() == 0
    }

    /// The edits of the patch, in the order in which they were recorded.
    pub fn edits(&self) -> (edits: &Vec<Edit>)
        ensures
            indels_of(edits@) == self@,
    {
        &self.edits
    }

    /// Whether the patch can be applied to `text`.
    pub fn fits(&self, text: &str) -> (ok: bool)
        ensures
            ok == applicable(self@, encode_utf8(text@)),
    {
        spans_fit(&self.edits, text) && spans_disjoint(&self.edits) && lengths_fit(
            &self.edits,
            text.as_bytes().len(),
        )
    }

    /// Applies the patch to `text`, each edit at its span of the text as it was.
    /// A patch that cannot be applied leaves the text as it is.
    pub fn apply(&self, text: &mut String) -> (done: bool)
        ensures
            done == applicable(self@, encode_utf8(old(text)@)),
            done ==> encode_utf8(final(text)@) == patched(encode_utf8(old(text)@), self@),
            !done ==> final(text)@ == old(text)@,
    {
        if !self.fits(text.as_str()) {
            return false;
        }
        let ghost bytes = encode_utf8(text@);
        let ghost s = self@;
        let mut builder = builder_new();
        let mut i: usize = 0;
        assert(s.take(0) =~= builder_edits(builder));
        while i < self.edits.len()
            invariant
                i <= self.edits.len(),
                s == indels_of(self.edits@),
                within(s, bytes),
                pairwise_disjoint(s),
                ordered(builder_edits(builder)) == ordered(s.take(i as int)),
            decreases self.edits.len() - i,
        {
            let edit = &self.edits[i];
            let ghost held = builder_edits(builder);
            proof {
                let next = s.take(i + 1);
                assert(s[i as int] == edit@);
                assert(next.drop_last() =~= s.take(i as int));
                assert(next.last() == edit@);
                assert(held.push(edit@).drop_last() =~= held);
                assert(ordered(held.push(edit@)) == ordered(next));
                assert forall|k: int| 0 <= k < next.len() implies 0 <= (#[trigger] next[k]).start
                    <= next[k].end by {
                    assert(next[k] == s[k]);
                }
                assert forall|a: int, b: int| 0 <= a < b < next.len() implies disjoint(
                    #[trigger] next[a],
                    #[trigger] next[b],
                ) by {
                    assert(next[a] == s[a] && next[b] == s[b]);
                }
                ordered_lies_in_order(next);
                ordered_is_sorted(held.push(edit@));
                sorted_stays_ordered(ordered(held.push(edit@)));
            }
            builder_replace(&mut builder, edit.range, edit.insert.clone());
            i += 1;
        }
        assert(s.take(i as int) == s);
        proof {
            ordered_and_merged(s, bytes);
            assert forall|k: int| 0 <= k < s.len() implies 0 <= (#[trigger] s[k]).start <= s[k].end by {}
            ordered_lies_in_order(s);
        }
        let edit = builder_finish(builder);
        text_edit_apply(&edit, text);
        true
    }
}

} // verus!
