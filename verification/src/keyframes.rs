//! Camera sequences: named sequences of keyframes, each keyframe stored
//! under the index text that the game sent with it.

use vstd::prelude::*;
use crate::text::{split_fields, split_text, text_starts_with, views_of};
use crate::text_map::{strictly_sorted, TextMap};

verus! {

/// One camera keyframe, each number kept as the text the game sent.
#[derive(Debug, Clone)]
pub struct Keyframe {
    pub pos: [String; 3],
    pub forward: [String; 3],
    pub up: [String; 3],
    pub fov: String,
    pub duration: String,
    pub lerp: String,
}

impl View for Keyframe {
    /// The twelve texts: position, forward and up vectors, field of view,
    /// duration and interpolation.
    type V = Seq<Seq<char>>;

    open spec fn view(&self) -> Seq<Seq<char>> {
        seq![
            self.pos[0]@,
            self.pos[1]@,
            self.pos[2]@,
            self.forward[0]@,
            self.forward[1]@,
            self.forward[2]@,
            self.up[0]@,
            self.up[1]@,
            self.up[2]@,
            self.fov@,
            self.duration@,
            self.lerp@,
        ]
    }
}

/// What a stored sequence holds: each frame index's keyframe.
pub type SequenceView = Map<Seq<char>, Seq<Seq<char>>>;

/// The views of the keyframes of a sequence.
pub open spec fn frames_view(m: Map<Seq<char>, Keyframe>) -> SequenceView {
    m.map_values(|k: Keyframe| k@)
}

/// Every named sequence of keyframes, kept in name order with each
/// sequence's frames in index order.
pub struct SequenceStore {
    sequences: TextMap<TextMap<Keyframe>>,
}

impl SequenceStore {
    /// Both levels keep their keys sorted.
    pub closed spec fn wf(&self) -> bool {
        &&& self.sequences.wf()
        &&& forall|k: Seq<char>| #[trigger]
            self.sequences@.contains_key(k) ==> self.sequences@[k].wf()
    }

    /// Each sequence name's frames.
    pub closed spec fn view(&self) -> Map<Seq<char>, SequenceView> {
        self.sequences@.map_values(|m: TextMap<Keyframe>| frames_view(m@))
    }

    /// The sequence names in the order in which they are listed.
    pub closed spec fn names(&self) -> Seq<Seq<char>> {
        self.sequences.keys()
    }

    /// An empty store.
    pub fn new() -> (r: Self)
        ensures
            r.wf(),
            r@ == Map::<Seq<char>, SequenceView>::empty(),
    {
        let r = SequenceStore { sequences: TextMap::new() };
        assert(r@ =~= Map::<Seq<char>, SequenceView>::empty());
        r
    }

    /// The names are listed once each, in increasing order, and they are the
    /// names the store holds.
    pub proof fn lemma_names_in_order(&self)
        requires
            self.wf(),
        ensures
            strictly_sorted(self.names()),
            self.names().no_duplicates(),
            forall|k: Seq<char>| self@.contains_key(k) <==> self.names().contains(k),
    {
        self.sequences.lemma_keys_in_order();
    }

    /// The stored frames of sequence `name`, in index order.
    pub fn sequence(&self, name: &str) -> (r: Option<&TextMap<Keyframe>>)
        requires
            self.wf(),
        ensures
            r is Some <==> self@.contains_key(name@),
            r matches Some(m) ==> m.wf() && frames_view(m@) == self@[name@],
    {
        self.sequences.get(name)
    }

    /// Makes sure that sequence `name` exists, empty if it did not.
    pub fn ensure_sequence(&mut self, name: &str)
        requires
            old(self).wf(),
        ensures
            final(self).wf(),
            final(self)@ == if old(self)@.contains_key(name@) {
                old(self)@
            } else {
                old(self)@.insert(name@, Map::empty())
            },
    {
        match self.sequences.get(name) {
            Some(_) => {},
            None => {
                let empty: TextMap<Keyframe> = TextMap::new();
                let ghost e = empty;
                self.sequences.insert(name.to_owned(), empty);
                assert(frames_view(e@) =~= Map::empty());
                assert(self@ =~= old(self)@.insert(name@, Map::empty()));
            },
        }
    }

    /// Stores `frame` as frame `index` of sequence `name`, creating the
    /// sequence if needed and replacing a frame with the same index.
    pub fn insert_keyframe(&mut self, name: &str, index: String, frame: Keyframe)
        requires
            old(self).wf(),
        ensures
            final(self).wf(),
            final(self)@ == with_frame(old(self)@, name@, index@, frame@),
    {
        let ghost old_outer = self.sequences@;
        let ghost idx = index@;
        let ghost fv = frame@;
        let mut inner = match self.sequences.take(name) {
            Some(m) => m,
            None => TextMap::new(),
        };
        let ghost before = inner@;
        inner.insert(index, frame);
        let ghost after = inner@;
        assert(frames_view(after) =~= frames_view(before).insert(idx, fv));
        self.sequences.insert(name.to_owned(), inner);
        assert(self.sequences@ == old_outer.remove(name@).insert(name@, inner));
        assert forall|k: Seq<char>| #[trigger]
            self.sequences@.contains_key(k) implies self.sequences@[k].wf() by {
            if k != name@ {
                assert(old_outer.contains_key(k));
            }
        }
        proof {
            if old_outer.contains_key(name@) {
                assert(frames_view(before) == old(self)@[name@]);
            } else {
                assert(frames_view(before) =~= Map::empty());
            }
        }
        assert(self@ =~= old(self)@.insert(name@, frames_view(before).insert(idx, fv)));
    }
}

/// `view` with frame `index` of sequence `name` set to `frame`, the sequence
/// created if it was missing.
pub open spec fn with_frame(
    view: Map<Seq<char>, SequenceView>,
    name: Seq<char>,
    index: Seq<char>,
    frame: Seq<Seq<char>>,
) -> Map<Seq<char>, SequenceView> {
    view.insert(
        name,
        (if view.contains_key(name) {
            view[name]
        } else {
            Map::empty()
        }).insert(index, frame),
    )
}

/// The space-separated fields of a keyframe report.
pub open spec fn report_fields(text: Seq<char>) -> Seq<Seq<char>> {
    split_fields(text, ' ')
}

/// A report is complete when it has at least twenty fields.
pub open spec fn report_complete(text: Seq<char>) -> bool {
    report_fields(text).len() >= 20
}

/// The frame index a report carries: its second field.
pub open spec fn report_index(text: Seq<char>) -> Seq<char> {
    report_fields(text)[1]
}

/// The keyframe a report carries: fields 3-5 (position), 7-9 (forward),
/// 11-13 (up), 15 (field of view), 17 (duration) and 19 (interpolation);
/// the fields between them are labels.
pub open spec fn report_frame(text: Seq<char>) -> Seq<Seq<char>> {
    let f = report_fields(text);
    seq![f[3], f[4], f[5], f[7], f[8], f[9], f[11], f[12], f[13], f[15], f[17], f[19]]
}

/// In a complete report, the stored frame is: position x, y, z from the
/// space-separated fields 3, 4, 5; forward x, y, z from fields 7, 8, 9; up
/// x, y, z from fields 11, 12, 13; field of view, duration and interpolation
/// from fields 15, 17 and 19; and the frame's index is field 1.
pub proof fn law_report_frame_fields(text: Seq<char>)
    requires
        report_complete(text),
    ensures
        report_index(text) == split_fields(text, ' ')[1],
        report_frame(text).len() == 12,
        forall|j: int|
            0 <= j < 3 ==> #[trigger] report_frame(text)[j] == split_fields(text, ' ')[3 + j]
                && report_frame(text)[3 + j] == split_fields(text, ' ')[7 + j] && report_frame(
                text,
            )[6 + j] == split_fields(text, ' ')[11 + j],
        report_frame(text)[9] == split_fields(text, ' ')[15],
        report_frame(text)[10] == split_fields(text, ' ')[17],
        report_frame(text)[11] == split_fields(text, ' ')[19],
{
}

/// Reads a keyframe report such as
/// "KEYFRAME 0 Pos: x y z Forward: x y z Up: x y z Fov: f Duration: d Lerp: l".
pub fn parse_keyframe(text: &str) -> (r: Option<(String, Keyframe)>)
    ensures
        r is Some <==> report_complete(text@),
        r matches Some((index, frame)) ==> index@ == report_index(text@) && frame@ == report_frame(
            text@,
        ),
        r is Some <==> split_fields(text@, ' ').len() >= 20,
        r matches Some((index, frame)) ==> {
            let f = split_fields(text@, ' ');
            &&& index@ == f[1]
            &&& frame.pos[0]@ == f[3] && frame.pos[1]@ == f[4] && frame.pos[2]@ == f[5]
            &&& frame.forward[0]@ == f[7] && frame.forward[1]@ == f[8] && frame.forward[2]@ == f[9]
            &&& frame.up[0]@ == f[11] && frame.up[1]@ == f[12] && frame.up[2]@ == f[13]
            &&& frame.fov@ == f[15]
            &&& frame.duration@ == f[17]
            &&& frame.lerp@ == f[19]
        },
{
    let parts = split_text(text, ' ');
    assert(views_of(parts@).len() == parts@.len());
    if parts.len() < 20 {
        return None;
    }
    proof {
        assert forall|i: int| 0 <= i < parts@.len() implies #[trigger] parts@[i]@ == report_fields(
            text@,
        )[i] by {
            assert(views_of(parts@)[i] == parts@[i]@);
        }
    }
    let frame = Keyframe {
        pos: [parts[3].clone(), parts[4].clone(), parts[5].clone()],
        forward: [parts[7].clone(), parts[8].clone(), parts[9].clone()],
        up: [parts[11].clone(), parts[12].clone(), parts[13].clone()],
        fov: parts[15].clone(),
        duration: parts[17].clone(),
        lerp: parts[19].clone(),
    };
    assert(frame@ =~= report_frame(text@));
    Some((parts[1].clone(), frame))
}

/// Stores the keyframe that report `text` carries as a frame of sequence
/// `sequence_name`. An incomplete report stores nothing; the result says
/// whether the frame was stored.
pub fn parse_and_save_keyframe(store: &mut SequenceStore, sequence_name: &str, text: &str) -> (saved: bool)
    requires
        old(store).wf(),
    ensures
        final(store).wf(),
        saved == report_complete(text@),
        saved ==> final(store)@ == with_frame(
            old(store)@,
            sequence_name@,
            report_index(text@),
            report_frame(text@),
        ),
        !saved ==> final(store)@ == old(store)@,
{
    match parse_keyframe(text) {
        Some((index, frame)) => {
            store.insert_keyframe(sequence_name, index, frame);
            true
        },
        None => false,
    }
}

/// The names of the stored sequences, in increasing order.
pub fn sequence_names(store: &SequenceStore) -> (r: Vec<String>)
    requires
        store.wf(),
    ensures
        views_of(r@) == store.names(),
{
    store.sequences.key_list()
}

/// Whether a line from the game reports a keyframe.
pub fn is_keyframe_report(line: &str) -> (r: bool)
    ensures
        r == "KEYFRAME"@.is_prefix_of(line@),
{
    text_starts_with(line, "KEYFRAME")
}

/// A frame just stored is what the store then gives back for its sequence
/// and index, and every other sequence is left as it was.
pub proof fn law_stored_frame_is_read_back(
    view: Map<Seq<char>, SequenceView>,
    name: Seq<char>,
    index: Seq<char>,
    frame: Seq<Seq<char>>,
)
    ensures
        with_frame(view, name, index, frame).contains_key(name),
        with_frame(view, name, index, frame)[name].contains_key(index),
        with_frame(view, name, index, frame)[name][index] == frame,
        forall|other: Seq<char>|
            other != index && view.contains_key(name) && view[name].contains_key(other) ==> (
            #[trigger] with_frame(view, name, index, frame)[name].contains_key(other) && with_frame(
                view,
                name,
                index,
                frame,
            )[name][other] == view[name][other]),
        forall|n: Seq<char>|
            n != name ==> #[trigger] with_frame(view, name, index, frame).contains_key(n)
                == view.contains_key(n) && (view.contains_key(n) ==> with_frame(
                view,
                name,
                index,
                frame,
            )[n] == view[n]),
{
}

} // verus!
