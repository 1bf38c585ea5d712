//! Embedded tags of a sequence of files, taken as the ordered tracks of one
//! release. Opening the files and saving tags is done by the caller; this
//! module decides what is read from them and what is written to them.
use vstd::prelude::*;
use crate::error::Error;
use crate::info_struct::{Metadata, MetadataView, Track, TrackView, empty_track, tracks_view};

verus! {

/// The tag fields of one file.
pub struct TagRecord {
    pub title: String,
    pub artist: String,
    pub album: String,
    pub year: u32,
    pub genre: String,
    pub track: u32,
}

pub struct TagRecordView {
    pub title: Seq<char>,
    pub artist: Seq<char>,
    pub album: Seq<char>,
    pub year: u32,
    pub genre: Seq<char>,
    pub track: u32,
}

impl View for TagRecord {
    type V = TagRecordView;

    open spec fn view(&self) -> TagRecordView {
        TagRecordView {
            title: self.title@,
            artist: self.artist@,
            album: self.album@,
            year: self.year,
            genre: self.genre@,
            track: self.track,
        }
    }
}

/// One slot of the release: no file, a file whose tags cannot be opened, or
/// a file with its tags.
pub enum TagSlot {
    Absent,
    Unreadable,
    Tagged(TagRecord),
}

pub enum TagSlotView {
    Absent,
    Unreadable,
    Tagged(TagRecordView),
}

impl View for TagSlot {
    type V = TagSlotView;

    open spec fn view(&self) -> TagSlotView {
        match self {
            TagSlot::Absent => TagSlotView::Absent,
            TagSlot::Unreadable => TagSlotView::Unreadable,
            TagSlot::Tagged(r) => TagSlotView::Tagged(r@),
        }
    }
}

/// `f` is the first slot that holds a file.
pub open spec fn is_first_present(s: Seq<TagSlotView>, f: int) -> bool {
    &&& 0 <= f < s.len()
    &&& !(s[f] is Absent)
    &&& forall|j: int| 0 <= j < f ==> s[j] is Absent
}

/// The track that one slot reads as: its tags, or an empty track.
pub open spec fn slot_track(slot: TagSlotView) -> TrackView {
    match slot {
        TagSlotView::Tagged(r) => TrackView { title: r.title, artist: r.artist },
        _ => empty_track(),
    }
}

/// What reading the slots gives: release-level fields from the first file,
/// one track per slot.
pub open spec fn read_tags(s: Seq<TagSlotView>) -> Result<MetadataView, Error> {
    if forall|i: int| 0 <= i < s.len() ==> s[i] is Absent {
        Err(Error::NoAudioFile)
    } else if exists|i: int| 0 <= i < s.len() && s[i] is Unreadable {
        Err(Error::FileAccess)
    } else {
        let f = choose|f: int| is_first_present(s, f);
        let r = s[f]->Tagged_0;
        Ok(
            MetadataView {
                id: None,
                album: r.album,
                date: r.year,
                genre: r.genre,
                tracks: s.map_values(|slot: TagSlotView| slot_track(slot)),
            },
        )
    }
}

/// The tags that slot `i` receives when `m` is written.
pub open spec fn planned_record(m: MetadataView, i: int) -> TagRecordView {
    TagRecordView {
        title: m.tracks[i].title,
        artist: m.tracks[i].artist,
        album: m.album,
        year: m.date,
        genre: m.genre,
        track: (i + 1) as u32,
    }
}

/// What writing `m` to the slots does: every slot holding a file needs a
/// track of `m`, every such file needs readable tags, and then each of them
/// receives its planned tags.
pub open spec fn write_plan(s: Seq<TagSlotView>, m: MetadataView) -> Result<
    Seq<Option<TagRecordView>>,
    Error,
> {
    if exists|i: int| 0 <= i < s.len() && !(s[i] is Absent) && i >= m.tracks.len() {
        Err(Error::Precondition)
    } else if exists|i: int| 0 <= i < s.len() && s[i] is Unreadable {
        Err(Error::FileAccess)
    } else {
        Ok(
            Seq::new(
                s.len(),
                |i: int|
                    if s[i] is Absent {
                        None
                    } else {
                        Some(planned_record(m, i))
                    },
            ),
        )
    }
}

/// The slots after a plan has been saved to their files.
pub open spec fn apply_plan(s: Seq<TagSlotView>, plan: Seq<Option<TagRecordView>>) -> Seq<
    TagSlotView,
> {
    Seq::new(
        s.len(),
        |i: int|
            match plan[i] {
                Some(r) => TagSlotView::Tagged(r),
                None => s[i],
            },
    )
}

pub open spec fn plan_view(p: Seq<Option<TagRecord>>) -> Seq<Option<TagRecordView>> {
    p.map_values(
        |o: Option<TagRecord>|
            match o {
                Some(r) => Some(r@),
                None => None,
            },
    )
}

/// The tags of a release's files, one slot per track number.
pub struct TagLib {
    files: Vec<TagSlot>,
}

impl View for TagLib {
    type V = Seq<TagSlotView>;

    closed spec fn view(&self) -> Seq<TagSlotView> {
        self.files@.map_values(|f: TagSlot| f@)
    }
}

impl TagLib {
    /// Takes the slots in track-number order; a file that could not be
    /// opened is an absent slot.
    pub fn new(files: Vec<TagSlot>) -> (r: TagLib)
        ensures
            r@ == files@.map_values(|f: TagSlot| f@),
    {
        TagLib { files }
    }

    /// Reads the release: album, year and genre from the first file, one
    /// track per slot.
    pub fn read(&self) -> (r: Result<Metadata, Error>)
        ensures
            match r {
                Ok(m) => read_tags(self@) == Ok::<MetadataView, Error>(m@),
                Err(e) => read_tags(self@) == Err::<MetadataView, Error>(e),
            },
    {
        let ghost s = self@;
        let n = self.files.len();
        let mut f: usize = 0;
        while f < n && matches!(self.files[f], TagSlot::Absent)
            invariant
                s == self@,
                n == s.len(),
                f <= n,
                forall|j: int| 0 <= j < f ==> s[j] is Absent,
            decreases n - f,
        {
            f = f + 1;
        }
        if f == n {
            return Err(Error::NoAudioFile);
        }
        assert(is_first_present(s, f as int));
        let mut tracks: Vec<Track> = Vec::with_capacity(n);
        let mut i: usize = 0;
        while i < n
            invariant
                s == self@,
                n == s.len(),
                i <= n,
                forall|j: int| 0 <= j < i ==> !(s[j] is Unreadable),
                tracks_view(tracks@) == s.take(i as int).map_values(
                    |slot: TagSlotView| slot_track(slot),
                ),
            decreases n - i,
        {
            let ghost prev = tracks_view(tracks@);
            match &self.files[i] {
                TagSlot::Absent => {
                    tracks.push(Track::default());
                },
                TagSlot::Unreadable => {
                    assert(s[i as int] is Unreadable);
                    return Err(Error::FileAccess);
                },
                TagSlot::Tagged(rec) => {
                    tracks.push(Track::new(rec.title.clone(), rec.artist.clone()));
                },
            }
            assert(tracks_view(tracks@) =~= prev.push(slot_track(s[i as int])));
            assert(s.take(i + 1).map_values(|slot: TagSlotView| slot_track(slot)) =~= s.take(
                i as int,
            ).map_values(|slot: TagSlotView| slot_track(slot)).push(slot_track(s[i as int])));
            i = i + 1;
        }
        assert(s.take(n as int) =~= s);
        match &self.files[f] {
            TagSlot::Tagged(first) => {
                let m = Metadata::new(
                    None,
                    first.album.clone(),
                    first.year,
                    first.genre.clone(),
                    tracks,
                );
                proof {
                    let g = choose|g: int| is_first_present(s, g);
                    assert(is_first_present(s, g));
                    if g < f {
                        assert(s[g] is Absent);
                    }
                    if g > f {
                        assert(s[f as int] is Absent);
                    }
                    assert(g == f);
                }
                Ok(m)
            },
            _ => {
                assert(false);
                Err(Error::FileAccess)
            },
        }
    }

    /// Decides what writing `meta` does: for each slot holding a file, the
    /// tags it receives (track number `i + 1`, the release fields, and the
    /// title and artist of `meta.tracks[i]`).
    pub fn write(&self, meta: &Metadata) -> (r: Result<Vec<Option<TagRecord>>, Error>)
        ensures
            match r {
                Ok(p) => write_plan(self@, meta@) == Ok::<Seq<Option<TagRecordView>>, Error>(
                    plan_view(p@),
                ),
                Err(e) => write_plan(self@, meta@) == Err::<Seq<Option<TagRecordView>>, Error>(
                    e,
                ),
            },
    {
        let ghost s = self@;
        let ghost m = meta@;
        let n = self.files.len();
        let mut i: usize = 0;
        while i < n
            invariant
                s == self@,
                m == meta@,
                n == s.len(),
                i <= n,
                m.tracks.len() == meta.tracks@.len(),
                forall|j: int| 0 <= j < i ==> (s[j] is Absent || j < m.tracks.len()),
            decreases n - i,
        {
            if !matches!(self.files[i], TagSlot::Absent) && i >= meta.tracks.len() {
                assert(!(s[i as int] is Absent) && i >= m.tracks.len());
                return Err(Error::Precondition);
            }
            i = i + 1;
        }
        i = 0;
        while i < n
            invariant
                s == self@,
                n == s.len(),
                i <= n,
                m == meta@,
                forall|j: int| 0 <= j < n ==> (s[j] is Absent || j < m.tracks.len()),
                forall|j: int| 0 <= j < i ==> !(s[j] is Unreadable),
            decreases n - i,
        {
            if matches!(self.files[i], TagSlot::Unreadable) {
                assert(s[i as int] is Unreadable);
                return Err(Error::FileAccess);
            }
            i = i + 1;
        }
        let ghost want = write_plan(s, m)->Ok_0;
        let mut plan: Vec<Option<TagRecord>> = Vec::with_capacity(n);
        i = 0;
        while i < n
            invariant
                s == self@,
                m == meta@,
                n == s.len(),
                i <= n,
                forall|j: int| 0 <= j < n ==> (s[j] is Absent || j < m.tracks.len()),
                m.tracks.len() == meta.tracks@.len(),
                want == write_plan(s, m)->Ok_0,
                write_plan(s, m) is Ok,
                plan_view(plan@) == want.take(i as int),
            decreases n - i,
        {
            let ghost prev = plan_view(plan@);
            assert(s[i as int] == self.files@[i as int]@);
            assert(want.len() == n);
            assert(want[i as int] == (if s[i as int] is Absent {
                None
            } else {
                Some(planned_record(m, i as int))
            }));
            if matches!(self.files[i], TagSlot::Absent) {
                plan.push(None);
                assert(plan_view(plan@) =~= prev.push(want[i as int]));
            } else {
                assert(s[i as int] == self.files@[i as int]@);
                assert(!(s[i as int] is Absent));
                assert(i < m.tracks.len());
                let t = &meta.tracks[i];
                let rec = TagRecord {
                    title: t.title.clone(),
                    artist: t.artist.clone(),
                    album: meta.album.clone(),
                    year: meta.date,
                    genre: meta.genre.clone(),
                    track: #[verifier::truncate] ((i + 1) as u32),
                };
                assert(rec@ == planned_record(m, i as int));
                plan.push(Some(rec));
                assert(plan_view(plan@) =~= prev.push(want[i as int]));
            }
            assert(want.take(i + 1) =~= want.take(i as int).push(want[i as int]));
            i = i + 1;
        }
        assert(want.take(n as int) =~= want);
        Ok(plan)
    }
}

/// Reading never drops a slot: there is one track per slot, and a slot
/// without a file reads as a track with empty title and artist.
pub proof fn lemma_absent_slot_reads_empty(s: Seq<TagSlotView>)
    requires
        read_tags(s) is Ok,
    ensures
        read_tags(s)->Ok_0.tracks.len() == s.len(),
        forall|i: int|
            0 <= i < s.len() && s[i] is Absent ==> read_tags(s)->Ok_0.tracks[i] == empty_track(),
{
}

/// Writing a release to the slots and reading them back gives its album,
/// date and genre, one track per slot, and the title and artist of every
/// slot that held a file when it was written.
pub proof fn lemma_write_then_read(s: Seq<TagSlotView>, m: MetadataView)
    requires
        write_plan(s, m) is Ok,
        exists|i: int| 0 <= i < s.len() && !(s[i] is Absent),
    ensures
        read_tags(apply_plan(s, write_plan(s, m)->Ok_0)) is Ok,
        read_tags(apply_plan(s, write_plan(s, m)->Ok_0))->Ok_0.album == m.album,
        read_tags(apply_plan(s, write_plan(s, m)->Ok_0))->Ok_0.date == m.date,
        read_tags(apply_plan(s, write_plan(s, m)->Ok_0))->Ok_0.genre == m.genre,
        read_tags(apply_plan(s, write_plan(s, m)->Ok_0))->Ok_0.tracks.len() == s.len(),
        forall|i: int|
            0 <= i < s.len() && !(s[i] is Absent) ==> read_tags(
                apply_plan(s, write_plan(s, m)->Ok_0),
            )->Ok_0.tracks[i] == m.tracks[i],
{
    let plan = write_plan(s, m)->Ok_0;
    let t = apply_plan(s, plan);
    let w = choose|i: int| 0 <= i < s.len() && !(s[i] is Absent);
    assert(!(t[w] is Absent));
    assert(!exists|i: int| 0 <= i < t.len() && t[i] is Unreadable) by {
        assert forall|i: int| 0 <= i < t.len() implies !(t[i] is Unreadable) by {
            assert(!(s[i] is Unreadable));
        }
    }
    let back = read_tags(t)->Ok_0;
    let f = choose|f: int| is_first_present(t, f);
    assert(is_first_present(t, f)) by {
        lemma_first_present_exists(t);
    }
    assert(t[f] == TagSlotView::Tagged(planned_record(m, f)));
    assert forall|i: int| 0 <= i < s.len() && !(s[i] is Absent) implies back.tracks[i]
        == m.tracks[i] by {
        assert(t[i] == TagSlotView::Tagged(planned_record(m, i)));
    }
}

proof fn lemma_first_present_exists(t: Seq<TagSlotView>)
    requires
        exists|g: int| 0 <= g < t.len() && !(t[g] is Absent),
    ensures
        exists|f: int| is_first_present(t, f),
    decreases t.len(),
{
    let init = t.drop_last();
    if exists|g: int| 0 <= g < init.len() && !(init[g] is Absent) {
        lemma_first_present_exists(init);
        let f = choose|f: int| is_first_present(init, f);
        assert(init[f] == t[f]);
        assert forall|j: int| 0 <= j < f implies t[j] is Absent by {
            assert(init[j] == t[j]);
        }
        assert(is_first_present(t, f));
    } else {
        let f = t.len() - 1;
        let g = choose|g: int| 0 <= g < t.len() && !(t[g] is Absent);
        if g < f {
            assert(init[g] == t[g]);
        }
        assert forall|j: int| 0 <= j < f implies t[j] is Absent by {
            assert(init[j] == t[j]);
        }
        assert(is_first_present(t, f));
    }
}

} // verus!
