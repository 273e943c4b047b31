use vstd::prelude::*;

use crate::config_manager::InfraredConfigManager;
use crate::frame::InfraredFrame;
use crate::tone_map::{configs_equal, lut_table, same_config, valid_config, InfraredConfig, LUT_LEN};

verus! {

/// The four-channel pixels for `samples`: each sample's table byte three
/// times, then full opacity.
pub open spec fn rgba_of(lut: Seq<u8>, samples: Seq<u16>) -> Seq<u8> {
    Seq::new(
        4 * samples.len(),
        |i: int|
            if i % 4 == 3 {
                255u8
            } else {
                lut[samples[i / 4] as int]
            },
    )
}

/// Writes the four-channel image of `samples` into `out`, replacing what it held.
pub fn infrared_to_rgba(lut: &Vec<u8>, samples: &Vec<u16>, out: &mut Vec<u8>)
    requires
        lut@.len() == LUT_LEN,
    ensures
        final(out)@ == rgba_of(lut@, samples@),
{
    out.clear();
    let n = samples.len();
    let mut i: usize = 0;
    while i < n
        invariant
            lut@.len() == LUT_LEN,
            n == samples@.len(),
            i <= n,
            out@.len() == 4 * i,
            forall|j: int| 0 <= j < 4 * i ==> out@[j] == rgba_of(lut@, samples@)[j],
        decreases n - i,
    {
        let v = lut[samples[i] as usize];
        out.push(v);
        out.push(v);
        out.push(v);
        out.push(255);
        proof {
            assert forall|j: int| 4 * i <= j < 4 * i + 4 implies out@[j] == rgba_of(
                lut@,
                samples@,
            )[j] by {
                assert(j / 4 == i as int);
            }
        }
        i = i + 1;
    }
    assert(out@ =~= rgba_of(lut@, samples@));
}

/// Publish-side state of the infrared stream: the configuration its table
/// was made from, the table, and an image buffer reused from frame to frame.
pub struct InfraredPublisher {
    config: InfraredConfig,
    lut: Vec<u8>,
    rgba: Vec<u8>,
}

impl InfraredPublisher {
    pub closed spec fn wf(&self) -> bool {
        &&& valid_config(self.config)
        &&& self.lut@ == lut_table(self.config)
    }

    pub closed spec fn config_spec(&self) -> InfraredConfig {
        self.config
    }

    pub closed spec fn rgba_spec(&self) -> Seq<u8> {
        self.rgba@
    }

    /// Takes the active configuration and table of `manager`.
    pub fn new(manager: &InfraredConfigManager) -> (r: Self)
        requires
            manager.wf(),
        ensures
            r.wf(),
            r.config_spec() == manager.config_spec(),
            r.rgba_spec().len() == 0,
    {
        let config = manager.get_config();
        let lut = manager.lut().clone();
        assert(lut@ =~= manager.lut_spec());
        InfraredPublisher { config, lut, rgba: Vec::new() }
    }

    /// Takes the manager's configuration and table when the configuration
    /// differs from the one in use; returns whether it did.
    pub fn refresh(&mut self, manager: &InfraredConfigManager) -> (changed: bool)
        requires
            old(self).wf(),
            manager.wf(),
        ensures
            final(self).wf(),
            final(self).config_spec() == manager.config_spec(),
            changed == !same_config(old(self).config_spec(), manager.config_spec()),
            final(self).rgba_spec() == old(self).rgba_spec(),
    {
        let latest = manager.get_config();
        if configs_equal(&self.config, &latest) {
            false
        } else {
            self.config = latest;
            self.lut = manager.lut().clone();
            assert(self.lut@ =~= manager.lut_spec());
            true
        }
    }

    /// Converts one frame into the reused image buffer. An empty frame is
    /// skipped: the buffer is left as it was and `false` returned.
    pub fn convert(&mut self, frame: &InfraredFrame) -> (converted: bool)
        requires
            old(self).wf(),
        ensures
            final(self).wf(),
            final(self).config_spec() == old(self).config_spec(),
            converted == (frame.data@.len() > 0),
            converted ==> final(self).rgba_spec() == rgba_of(lut_table(old(self).config_spec()), frame.data@),
            !converted ==> final(self).rgba_spec() == old(self).rgba_spec(),
    {
        if frame.data.len() == 0 {
            return false;
        }
        infrared_to_rgba(&self.lut, &frame.data, &mut self.rgba);
        true
    }

    /// The image of the last converted frame.
    pub fn rgba(&self) -> (r: &Vec<u8>)
        ensures
            r@ == self.rgba_spec(),
    {
        &self.rgba
    }
}

} // verus!
