//! Live window thumbnails in Activities: which source windows are requested
//! and the registrations kept for them.
use crate::text::{handle_text, parse_isize};
use crate::windows::handle_map::{dropped_values, HandleMap};
use vstd::prelude::*;

verus! {

pub const DWM_TNP_RECTDESTINATION: u32 = 0x0000_0001;
pub const DWM_TNP_VISIBLE: u32 = 0x0000_0008;
pub const DWM_TNP_SOURCECLIENTAREAONLY: u32 = 0x0000_0010;

/// The handles among the placements' handle texts that read as numbers.
pub open spec fn readable_handles(handles: Seq<Seq<char>>) -> Seq<isize>
    decreases handles.len(),
{
    if handles.len() == 0 {
        Seq::empty()
    } else {
        let rest = readable_handles(handles.drop_last());
        match handle_text(handles.last()) {
            Some(h) => rest.push(h as isize),
            None => rest,
        }
    }
}

/// The source windows that the placements ask for; unreadable handles are
/// skipped here.
pub fn requested_sources(handles: &Vec<String>) -> (r: Vec<isize>)
    ensures
        r@ == readable_handles(handles@.map_values(|h: String| h@)),
{
    let ghost hv = handles@.map_values(|h: String| h@);
    let mut r: Vec<isize> = Vec::new();
    let mut i: usize = 0;
    while i < handles.len()
        invariant
            i <= handles@.len(),
            hv == handles@.map_values(|h: String| h@),
            r@ == readable_handles(hv.take(i as int)),
        decreases handles@.len() - i,
    {
        proof {
            assert(hv.take(i + 1).drop_last() =~= hv.take(i as int));
            assert(hv.take(i + 1).last() == handles@[i as int]@);
        }
        match parse_isize(handles[i].as_str()) {
            Some(h) => r.push(h),
            None => {},
        }
        i = i + 1;
    }
    proof {
        assert(hv.take(handles@.len() as int) =~= hv);
    }
    r
}

/// The source window of one placement; an unreadable handle fails the sync.
pub fn placement_source(handle: &str) -> (r: Result<isize, String>)
    ensures
        handle_text(handle@) matches Some(h) ==> r == Ok::<isize, String>(h as isize),
        handle_text(handle@) is None ==> (r matches Err(e)
            && e@ == "invalid window handle in thumbnail placement"@),
{
    match parse_isize(handle) {
        Some(h) => Ok(h),
        None => Err(String::from_str("invalid window handle in thumbnail placement")),
    }
}

/// Whether a source window is among the requested ones.
pub fn is_requested(requested: &Vec<isize>, source: isize) -> (r: bool)
    ensures
        r == requested@.contains(source),
{
    let mut i: usize = 0;
    while i < requested.len()
        invariant
            i <= requested@.len(),
            forall|k: int| 0 <= k < i ==> requested@[k] != source,
        decreases requested@.len() - i,
    {
        if requested[i] == source {
            return true;
        }
        i = i + 1;
    }
    false
}

/// The thumbnail registrations, one per source window.
pub struct ThumbnailManager {
    pub thumbnails: HandleMap,
}

impl ThumbnailManager {
    pub open spec fn wf(&self) -> bool {
        self.thumbnails.wf()
    }

    pub fn new() -> (r: Self)
        ensures
            r.wf(),
            r.thumbnails.view() == Map::<isize, isize>::empty(),
    {
        ThumbnailManager { thumbnails: HandleMap::new() }
    }

    /// Forgets every registration, handing back the thumbnails to unregister.
    pub fn clear(&mut self) -> (r: Vec<isize>)
        requires
            old(self).wf(),
        ensures
            final(self).wf(),
            final(self).thumbnails.view() == Map::<isize, isize>::empty(),
            r@ == old(self).thumbnails.entries_spec().map_values(|e: (isize, isize)| e.1),
    {
        self.thumbnails.drain()
    }

    /// Drops the registrations of windows that are no longer requested or no
    /// longer exist (`alive` tells, per registration in order, whether its
    /// window still exists), handing back the thumbnails to unregister.
    pub fn prune(&mut self, requested: &Vec<isize>, alive: &Vec<bool>) -> (dropped: Vec<isize>)
        requires
            old(self).wf(),
            alive@.len() == old(self).thumbnails.entries_spec().len(),
        ensures
            final(self).wf(),
            forall|k: isize| #[trigger] final(self).thumbnails.view().contains_key(k) <==> (
                old(self).thumbnails.view().contains_key(k) && exists|i: int| 0 <= i < alive@.len()
                    && #[trigger] old(self).thumbnails.entries_spec()[i].0 == k && requested@.contains(k) && alive@[i]),
            forall|k: isize| #[trigger] final(self).thumbnails.view().contains_key(k)
                ==> final(self).thumbnails.view()[k] == old(self).thumbnails.view()[k],
            dropped@ == dropped_values(old(self).thumbnails.entries_spec(), keep_flags(
                old(self).thumbnails.entries_spec(),
                requested@,
                alive@,
            )),
    {
        let pairs = self.thumbnails.pairs();
        let mut keep: Vec<bool> = Vec::new();
        let mut i: usize = 0;
        while i < pairs.len()
            invariant
                i <= pairs@.len(),
                pairs@ == self.thumbnails.entries_spec(),
                alive@.len() == pairs@.len(),
                keep@ == keep_flags(pairs@, requested@, alive@).take(i as int),
            decreases pairs@.len() - i,
        {
            let k = is_requested(requested, pairs[i].0) && alive[i];
            keep.push(k);
            i = i + 1;
            assert(keep@ =~= keep_flags(pairs@, requested@, alive@).take(i as int));
        }
        assert(keep@ =~= keep_flags(pairs@, requested@, alive@));
        self.thumbnails.retain(&keep)
    }

    /// What the sync does for one placement's source window: a null or gone
    /// window is skipped, a registered one is shown, any other is registered.
    pub fn placement_step(&self, source: isize, alive: bool) -> (r: PlacementStep)
        requires
            self.wf(),
        ensures
            (source == 0 || !alive) ==> r is Skip,
            source != 0 && alive && self.thumbnails.view().contains_key(source) ==> r == PlacementStep::Show(
                self.thumbnails.view()[source],
            ),
            source != 0 && alive && !self.thumbnails.view().contains_key(source) ==> r is Register,
    {
        if source == 0 || !alive {
            return PlacementStep::Skip;
        }
        match self.thumbnails.get(source) {
            Some(t) => PlacementStep::Show(t),
            None => PlacementStep::Register,
        }
    }

    /// Keeps the registration DWM made for a window (`result` 0 and a
    /// non-null thumbnail); otherwise the placement is skipped.
    pub fn register(&mut self, source: isize, result: i32, thumbnail: isize) -> (r: Option<isize>)
        requires
            old(self).wf(),
            !old(self).thumbnails.view().contains_key(source),
        ensures
            final(self).wf(),
            result == 0 && thumbnail != 0 ==> r == Some(thumbnail) && final(self).thumbnails.view()
                == old(self).thumbnails.view().insert(source, thumbnail),
            !(result == 0 && thumbnail != 0) ==> r is None && final(self).thumbnails.view()
                == old(self).thumbnails.view(),
    {
        if result != 0 || thumbnail == 0 {
            return None;
        }
        self.thumbnails.insert(source, thumbnail);
        Some(thumbnail)
    }
}

/// Whether each registration stays: its window is requested and exists.
pub open spec fn keep_flags(entries: Seq<(isize, isize)>, requested: Seq<isize>, alive: Seq<bool>) -> Seq<bool> {
    Seq::new(entries.len(), |i: int| requested.contains(entries[i].0) && alive[i])
}

/// What the sync does for one placement.
pub enum PlacementStep {
    /// The source window is null or gone.
    Skip,
    /// The window's existing thumbnail.
    Show(isize),
    /// The window needs a thumbnail registered.
    Register,
}

} // verus!
