//! The camera nodes' persisted configuration: the saved choice of each camera and its
//! applied calibration, keyed by source id, and the version that counts each change.
use vstd::prelude::*;
use crate::camera_selection::SavedProfiles;
use crate::keyed_list::KeyedList;
use crate::text::str_eq;

verus! {

/// The persisted configuration; `R` is a calibration result, carried unread.
pub struct CameraConfig<R> {
    pub config_version: u64,
    pub profiles: KeyedList<SavedProfiles>,
    pub cameras: KeyedList<Option<R>>,
}

impl<R> CameraConfig<R> {
    pub open spec fn wf(&self) -> bool {
        self.profiles.wf() && self.cameras.wf()
    }

    /// A configuration with nothing saved.
    pub fn new() -> (res: Self)
        ensures
            res.wf(),
            res.config_version == 0,
            res.profiles@ == Map::<Seq<char>, SavedProfiles>::empty(),
            res.cameras@ == Map::<Seq<char>, Option<R>>::empty(),
    {
        CameraConfig { config_version: 0, profiles: KeyedList::new(), cameras: KeyedList::new() }
    }

    /// Saves the choice made for a camera, replacing an earlier one.
    pub fn save_choice(&mut self, source_id: String, saved: SavedProfiles)
        requires
            old(self).wf(),
            old(self).config_version < u64::MAX,
        ensures
            final(self).wf(),
            final(self).profiles@ == old(self).profiles@.insert(source_id@, saved),
            final(self).cameras@ == old(self).cameras@,
            final(self).config_version == old(self).config_version + 1,
    {
        self.profiles.insert(source_id, saved);
        self.config_version = self.config_version + 1;
    }

    /// Forgets a camera: its saved choice and its calibration.
    pub fn forget(&mut self, source_id: &str)
        requires
            old(self).wf(),
            old(self).config_version < u64::MAX,
        ensures
            final(self).wf(),
            final(self).profiles@ == old(self).profiles@.remove(source_id@),
            final(self).cameras@ == old(self).cameras@.remove(source_id@),
            final(self).config_version == old(self).config_version + 1,
    {
        self.profiles.remove(source_id);
        self.cameras.remove(source_id);
        self.config_version = self.config_version + 1;
    }

    /// Forgets a camera's saved choice only (the capture node keeps no calibrations).
    pub fn forget_choice(&mut self, source_id: &str)
        requires
            old(self).wf(),
            old(self).config_version < u64::MAX,
        ensures
            final(self).wf(),
            final(self).profiles@ == old(self).profiles@.remove(source_id@),
            final(self).cameras@ == old(self).cameras@,
            final(self).config_version == old(self).config_version + 1,
    {
        self.profiles.remove(source_id);
        self.config_version = self.config_version + 1;
    }

    /// Records an applied calibration for a camera.
    pub fn save_calibration(&mut self, source_id: String, calibration: R)
        requires
            old(self).wf(),
            old(self).config_version < u64::MAX,
        ensures
            final(self).wf(),
            final(self).cameras@ == old(self).cameras@.insert(source_id@, Some(calibration)),
            final(self).profiles@ == old(self).profiles@,
            final(self).config_version == old(self).config_version + 1,
    {
        self.cameras.insert(source_id, Some(calibration));
        self.config_version = self.config_version + 1;
    }

    /// The applied calibration of a camera, if any.
    pub fn calibration(&self, source_id: &str) -> (res: Option<&R>)
        requires
            self.wf(),
        ensures
            match res {
                Some(r) => self.cameras@.dom().contains(source_id@) && self.cameras@[source_id@] == Some(*r),
                None => !self.cameras@.dom().contains(source_id@) || self.cameras@[source_id@] is None,
            },
    {
        match self.cameras.get(source_id) {
            Some(Some(r)) => Some(r),
            _ => None,
        }
    }
}

/// Whether a calibration session belongs to the camera (and ends when it is reset).
pub fn session_uses_camera(session_source: Option<&str>, source_id: &str) -> (res: bool)
    ensures
        res == (session_source matches Some(s) && s@ == source_id@),
{
    match session_source {
        Some(s) => str_eq(s, source_id),
        None => false,
    }
}

impl<R> CameraConfig<R> {
    /// The cameras whose saved choice has an output rate, in key order (the choices the
    /// node reports as configurations).
    pub fn configured_cameras(&self) -> (res: Vec<String>)
        requires
            self.wf(),
        ensures
            res@.map_values(|s: String| s@) == self.profiles.key_order().filter(
                |k: Seq<char>| self.profiles@[k].output_frames_per_second_bits is Some,
            ),
    {
        let ghost keys = self.profiles.key_order();
        let ghost keep = |k: Seq<char>| self.profiles@[k].output_frames_per_second_bits is Some;
        proof {
            self.profiles.lemma_order();
        }
        let n = self.profiles.len();
        proof {
            assert forall|j: int| 0 <= j < n implies #[trigger] self.profiles@[keys[j]] == self.profiles.value_order()[j] by {
                assert(self.profiles@.dom().contains(self.profiles.key_order()[j]));
            }
        }
        let mut res: Vec<String> = Vec::new();
        let mut i: usize = 0;
        assert(keys.take(0).filter(keep) =~= Seq::<Seq<char>>::empty());
        while i < n
            invariant
                self.wf(),
                n == keys.len(),
                keys == self.profiles.key_order(),
                keep == (|k: Seq<char>| self.profiles@[k].output_frames_per_second_bits is Some),
                i <= n,
                forall|j: int| 0 <= j < n ==> #[trigger] self.profiles@[keys[j]] == self.profiles.value_order()[j],
                res@.map_values(|s: String| s@) == keys.take(i as int).filter(keep),
            decreases n - i,
        {
            let (key, value) = self.profiles.entry(i);
            proof {
                assert(keys.take(i as int + 1) =~= keys.take(i as int).push(keys[i as int]));
                keys.take(i as int).lemma_filter_push(keys[i as int], keep);
                assert(self.profiles@[keys[i as int]] == self.profiles.value_order()[i as int]);
            }
            if value.output_frames_per_second_bits.is_some() {
                let ghost before = res@.map_values(|s: String| s@);
                res.push(key.clone());
                assert(res@.map_values(|s: String| s@) =~= before.push(key@));
            }
            i += 1;
        }
        assert(keys.take(n as int) =~= keys);
        res
    }
}

} // verus!
