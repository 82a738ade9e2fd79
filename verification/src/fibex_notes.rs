//! # What a load of FIBEX documents passes over
//!
//! Some of what documents hold does not reach the model, and is no error
//! either: of PDUs and of frames with the same id only the first counts,
//! and a signal without a known type is left out of its PDU. The notes of
//! a load name what was passed over, so that it can be reported.
use crate::fibex::{
    spec_pdu_map, spec_type_info_for_signal_ref, type_info_for_signal_ref, Gathered,
    GatheredView,
};
use vstd::hash_map::StringHashMap;
use vstd::hash_set::StringHashSet;
use vstd::prelude::*;

verus! {

/// What was passed over when a model was built.
#[derive(Debug, PartialEq, Eq)]
pub struct LoadNotes {
    /// The id of each PDU that was dropped because a PDU before it has the
    /// same id, in the order of the documents.
    pub duplicate_pdus: Vec<String>,
    /// The id of each frame that was dropped because a frame before it has
    /// the same id, in the order of the documents.
    pub duplicate_frames: Vec<String>,
    /// The signals without a known type, such as `S_FLOA16`, that were left
    /// out of the PDUs that count, in the order of the documents.
    pub skipped_signals: Vec<String>,
}

/// Mathematical value of [`LoadNotes`].
pub struct LoadNotesView {
    pub duplicate_pdus: Seq<Seq<char>>,
    pub duplicate_frames: Seq<Seq<char>>,
    pub skipped_signals: Seq<Seq<char>>,
}

/// Mathematical value of a list of texts.
pub open spec fn spec_texts(list: Seq<String>) -> Seq<Seq<char>> {
    Seq::new(list.len(), |i: int| list[i]@)
}

impl View for LoadNotes {
    type V = LoadNotesView;

    open spec fn view(&self) -> LoadNotesView {
        LoadNotesView {
            duplicate_pdus: spec_texts(self.duplicate_pdus@),
            duplicate_frames: spec_texts(self.duplicate_frames@),
            skipped_signals: spec_texts(self.skipped_signals@),
        }
    }
}

/// The ids among the first `n`.
pub open spec fn spec_first_ids(ids: Seq<Seq<char>>, n: int) -> Set<Seq<char>>
    decreases n,
{
    if n <= 0 || n > ids.len() {
        Set::empty()
    } else {
        spec_first_ids(ids, n - 1).insert(ids[n - 1])
    }
}

/// Those of the first `n` ids that stand in the list before: each as often
/// as it is repeated, in the order of the list.
pub open spec fn spec_repeated(ids: Seq<Seq<char>>, n: int) -> Seq<Seq<char>>
    decreases n,
{
    if n <= 0 || n > ids.len() {
        Seq::empty()
    } else if spec_first_ids(ids, n - 1).contains(ids[n - 1]) {
        spec_repeated(ids, n - 1).push(ids[n - 1])
    } else {
        spec_repeated(ids, n - 1)
    }
}

/// The signals among `refs` that have no type.
pub open spec fn spec_untyped(
    refs: Seq<String>,
    signals: Map<Seq<char>, String>,
    codings: Map<Seq<char>, String>,
) -> Seq<Seq<char>>
    decreases refs.len(),
{
    if refs.len() == 0 {
        Seq::empty()
    } else {
        let front = spec_untyped(refs.drop_last(), signals, codings);
        match spec_type_info_for_signal_ref(refs.last()@, signals, codings) {
            Some(_) => front,
            None => front.push(refs.last()@),
        }
    }
}

/// The ids of the PDUs that were read.
pub open spec fn spec_pdu_ids(g: GatheredView) -> Seq<Seq<char>> {
    Seq::new(g.pdus.len(), |i: int| g.pdus[i].id@)
}

/// The ids of the frames that were read.
pub open spec fn spec_frame_ids(g: GatheredView) -> Seq<Seq<char>> {
    Seq::new(g.frames.len(), |i: int| g.frames[i].id@)
}

/// The signals without a type in those of the first `n` PDUs that count:
/// a PDU whose id stands before is not looked at.
pub open spec fn spec_skipped(g: GatheredView, n: int) -> Seq<Seq<char>>
    decreases n,
{
    if n <= 0 || n > g.pdus.len() {
        Seq::empty()
    } else if spec_first_ids(spec_pdu_ids(g), n - 1).contains(g.pdus[n - 1].id@) {
        spec_skipped(g, n - 1)
    } else {
        spec_skipped(g, n - 1) + spec_untyped(g.pdus[n - 1].signal_refs, g.signals, g.codings)
    }
}

/// The notes of a load, by what was gathered.
pub open spec fn spec_load_notes(g: GatheredView) -> LoadNotesView {
    LoadNotesView {
        duplicate_pdus: spec_repeated(spec_pdu_ids(g), g.pdus.len() as int),
        duplicate_frames: spec_repeated(spec_frame_ids(g), g.frames.len() as int),
        skipped_signals: spec_skipped(g, g.pdus.len() as int),
    }
}

/// An id is repeated exactly if it stands in the list before.
pub proof fn lemma_first_ids(ids: Seq<Seq<char>>, n: int, id: Seq<char>)
    requires
        0 <= n <= ids.len(),
    ensures
        spec_first_ids(ids, n).contains(id) <==> exists|j: int| 0 <= j < n && ids[j] == id,
    decreases n,
{
    if n > 0 {
        lemma_first_ids(ids, n - 1, id);
        if ids[n - 1] == id {
            assert(0 <= n - 1 < n && ids[n - 1] == id);
        }
    }
}

/// The texts of `list` that stand in it before, see [`spec_repeated`].
fn repeated(list: &Vec<String>) -> (out: Vec<String>)
    ensures
        spec_texts(out@) == spec_repeated(spec_texts(list@), list@.len() as int),
{
    let ghost ids = spec_texts(list@);
    let mut out: Vec<String> = Vec::new();
    let mut seen = StringHashSet::new();
    let mut i: usize = 0;
    assert(spec_texts(out@) =~= spec_repeated(ids, 0));
    assert(seen@ =~= spec_first_ids(ids, 0));
    while i < list.len()
        invariant
            i <= list@.len(),
            ids == spec_texts(list@),
            seen@ == spec_first_ids(ids, i as int),
            spec_texts(out@) == spec_repeated(ids, i as int),
        decreases list@.len() - i,
    {
        let ghost before = out@;
        assert(ids[i as int] == list@[i as int]@);
        if seen.contains(list[i].as_str()) {
            out.push(list[i].clone());
            assert(spec_texts(out@) =~= spec_texts(before).push(list@[i as int]@));
        } else {
            seen.insert(list[i].clone());
        }
        assert(seen@ =~= spec_first_ids(ids, i + 1));
        i += 1;
    }
    out
}

/// The PDUs whose ids stand before are those that the model drops: the ids
/// among the first PDUs are the ids of the PDUs that the model keeps of
/// them, see [`spec_pdu_map`].
pub proof fn lemma_first_pdus_are_kept(g: GatheredView, n: int)
    requires
        0 <= n <= g.pdus.len(),
    ensures
        spec_first_ids(spec_pdu_ids(g), n) == spec_pdu_map(g, n).dom(),
    decreases n,
{
    if n > 0 {
        lemma_first_pdus_are_kept(g, n - 1);
    }
    assert(spec_first_ids(spec_pdu_ids(g), n) =~= spec_pdu_map(g, n).dom());
}

/// Put the signals among `refs` that have no type at the end of `out`.
fn push_untyped(
    out: &mut Vec<String>,
    refs: &Vec<String>,
    signals: &StringHashMap<String>,
    codings: &StringHashMap<String>,
)
    ensures
        spec_texts(final(out)@) == spec_texts(old(out)@) + spec_untyped(
            refs@,
            signals@,
            codings@,
        ),
{
    let ghost start = spec_texts(out@);
    let mut i: usize = 0;
    assert(refs@.subrange(0, 0) =~= Seq::<String>::empty());
    assert(spec_texts(out@) =~= start + Seq::<Seq<char>>::empty());
    while i < refs.len()
        invariant
            i <= refs@.len(),
            spec_texts(out@) == start + spec_untyped(
                refs@.subrange(0, i as int),
                signals@,
                codings@,
            ),
        decreases refs@.len() - i,
    {
        let ghost before = out@;
        proof {
            assert(refs@.subrange(0, i + 1).drop_last() =~= refs@.subrange(0, i as int));
            assert(refs@.subrange(0, i + 1).last() == refs@[i as int]);
        }
        if type_info_for_signal_ref(refs[i].as_str(), signals, codings).is_none() {
            out.push(refs[i].clone());
            assert(spec_texts(out@) =~= spec_texts(before).push(refs@[i as int]@));
            assert(spec_texts(out@) =~= start + spec_untyped(
                refs@.subrange(0, i + 1),
                signals@,
                codings@,
            ));
        }
        i += 1;
    }
    assert(refs@.subrange(0, refs@.len() as int) =~= refs@);
}

/// The ids of the PDUs that were read.
fn pdu_ids(g: &Gathered) -> (ids: Vec<String>)
    ensures
        spec_texts(ids@) == spec_pdu_ids(g@),
{
    let mut ids: Vec<String> = Vec::new();
    let mut i: usize = 0;
    while i < g.pdus.len()
        invariant
            i <= g.pdus@.len(),
            ids@.len() == i,
            forall|j: int| 0 <= j < i ==> (#[trigger] ids@[j])@ == g.pdus@[j].id@,
        decreases g.pdus@.len() - i,
    {
        ids.push(g.pdus[i].id.clone());
        i += 1;
    }
    assert(spec_texts(ids@) =~= spec_pdu_ids(g@));
    ids
}

/// The ids of the frames that were read.
fn frame_ids(g: &Gathered) -> (ids: Vec<String>)
    ensures
        spec_texts(ids@) == spec_frame_ids(g@),
{
    let mut ids: Vec<String> = Vec::new();
    let mut i: usize = 0;
    while i < g.frames.len()
        invariant
            i <= g.frames@.len(),
            ids@.len() == i,
            forall|j: int| 0 <= j < i ==> (#[trigger] ids@[j])@ == g.frames@[j].id@,
        decreases g.frames@.len() - i,
    {
        ids.push(g.frames[i].id.clone());
        i += 1;
    }
    assert(spec_texts(ids@) =~= spec_frame_ids(g@));
    ids
}

/// The signals without a type in the PDUs that count.
fn skipped(g: &Gathered) -> (out: Vec<String>)
    ensures
        spec_texts(out@) == spec_skipped(g@, g@.pdus.len() as int),
{
    let ghost ids = spec_pdu_ids(g@);
    let mut out: Vec<String> = Vec::new();
    let mut seen = StringHashSet::new();
    let mut i: usize = 0;
    assert(spec_texts(out@) =~= spec_skipped(g@, 0));
    assert(seen@ =~= spec_first_ids(ids, 0));
    while i < g.pdus.len()
        invariant
            i <= g.pdus@.len(),
            g@.pdus.len() == g.pdus@.len(),
            ids == spec_pdu_ids(g@),
            seen@ == spec_first_ids(ids, i as int),
            spec_texts(out@) == spec_skipped(g@, i as int),
        decreases g.pdus@.len() - i,
    {
        let pdu = &g.pdus[i];
        assert(g@.pdus[i as int] == pdu@);
        assert(ids[i as int] == pdu.id@);
        if !seen.contains(pdu.id.as_str()) {
            push_untyped(&mut out, &pdu.signal_refs, &g.signals, &g.codings);
            seen.insert(pdu.id.clone());
        }
        assert(seen@ =~= spec_first_ids(ids, i + 1));
        i += 1;
    }
    out
}

/// The notes of a load: what building the model of `g` passes over, see
/// [`LoadNotes`].
pub fn load_notes(g: &Gathered) -> (notes: LoadNotes)
    ensures
        notes@ == spec_load_notes(g@),
{
    let pdus = pdu_ids(g);
    let frames = frame_ids(g);
    LoadNotes {
        duplicate_pdus: repeated(&pdus),
        duplicate_frames: repeated(&frames),
        skipped_signals: skipped(g),
    }
}

} // verus!
