use vstd::prelude::*;

use crate::tone_map::{
    config_violation, configs_equal, default_config, generate_lut, lut_table, valid_config,
    ConfigError, InfraredConfig,
};

verus! {

/// Holds the active tone-mapping configuration, its table, and the
/// modification time of the source it was read from. A reload replaces the
/// configuration only when the source is newer and passes every rule.
pub struct InfraredConfigManager {
    config: InfraredConfig,
    lut: Vec<u8>,
    last_modified: u128,
}

impl InfraredConfigManager {
    /// The active configuration is valid and the table is the one it gives.
    pub closed spec fn wf(&self) -> bool {
        &&& valid_config(self.config)
        &&& self.lut@ == lut_table(self.config)
    }

    pub closed spec fn config_spec(&self) -> InfraredConfig {
        self.config
    }

    pub closed spec fn lut_spec(&self) -> Seq<u8> {
        self.lut@
    }

    pub closed spec fn last_modified_spec(&self) -> u128 {
        self.last_modified
    }

    /// Starts from what was read from a source modified at `modified`. A
    /// valid configuration becomes active; a failed read or a configuration
    /// that breaks a rule is rejected, the built-in default is used instead,
    /// and the reason is handed back.
    pub fn new(loaded: Result<InfraredConfig, ConfigError>, modified: u128) -> (r: (Self, Option<ConfigError>))
        ensures
            r.0.wf(),
            r.0.config_spec() == initial_config(loaded),
            r.0.lut_spec() == lut_table(initial_config(loaded)),
            r.0.last_modified_spec() == modified,
            r.1 == match loaded {
                Ok(c) => config_violation(c),
                Err(e) => Some(e),
            },
    {
        let (config, rejected) = match loaded {
            Ok(c) => match c.validate() {
                Ok(v) => (v, None),
                Err(e) => (InfraredConfig::default(), Some(e)),
            },
            Err(e) => (InfraredConfig::default(), Some(e)),
        };
        let lut = generate_lut(&config);
        (InfraredConfigManager { config, lut, last_modified: modified }, rejected)
    }

    /// The active configuration.
    pub fn get_config(&self) -> (r: InfraredConfig)
        ensures
            r == self.config_spec(),
            self.wf() ==> valid_config(r),
    {
        self.config
    }

    /// The table of the active configuration.
    pub fn lut(&self) -> (r: &Vec<u8>)
        requires
            self.wf(),
        ensures
            r@ == self.lut_spec(),
            r@ == lut_table(self.config_spec()),
    {
        &self.lut
    }

    /// Whether a source modified at `modified` is newer than the one in use.
    pub fn needs_reload(&self, modified: u128) -> (r: bool)
        ensures
            r == (modified > self.last_modified_spec()),
    {
        modified > self.last_modified
    }

    /// Offers what was read from a source modified at `modified`. Nothing
    /// changes unless the source is newer; a newer source that could not be
    /// read, or whose configuration breaks a rule, is rejected with its error
    /// and the previous configuration and table stay in use. Otherwise the
    /// configuration is swapped in, with its table, and `Ok(true)` returned.
    pub fn check_and_reload(&mut self, modified: u128, loaded: Result<InfraredConfig, ConfigError>) -> (r:
        Result<bool, ConfigError>)
        requires
            old(self).wf(),
        ensures
            final(self).wf(),
            modified <= old(self).last_modified_spec() ==> r == Ok::<bool, ConfigError>(false),
            modified > old(self).last_modified_spec() ==> match loaded {
                Err(e) => r == Err::<bool, ConfigError>(e),
                Ok(c) => match config_violation(c) {
                    Some(e) => r == Err::<bool, ConfigError>(e),
                    None => r == Ok::<bool, ConfigError>(true),
                },
            },
            r != Ok::<bool, ConfigError>(true) ==> final(self).config_spec() == old(self).config_spec()
                && final(self).lut_spec() == old(self).lut_spec()
                && final(self).last_modified_spec() == old(self).last_modified_spec(),
            r == Ok::<bool, ConfigError>(true) ==> loaded == Ok::<InfraredConfig, ConfigError>(
                final(self).config_spec())
                && final(self).lut_spec() == lut_table(final(self).config_spec())
                && final(self).last_modified_spec() == modified,
    {
        if modified <= self.last_modified {
            return Ok(false);
        }
        let candidate = match loaded {
            Ok(c) => c,
            Err(e) => {
                return Err(e);
            },
        };
        match candidate.validate() {
            Ok(c) => {
                if !configs_equal(&self.config, &c) {
                    self.lut = generate_lut(&c);
                }
                self.config = c;
                self.last_modified = modified;
                Ok(true)
            },
            Err(e) => Err(e),
        }
    }
}

/// The configuration a manager starts with: the loaded one when it was read
/// and is valid, else the built-in default.
pub open spec fn initial_config(loaded: Result<InfraredConfig, ConfigError>) -> InfraredConfig {
    match loaded {
        Ok(c) => if valid_config(c) {
            c
        } else {
            default_config()
        },
        Err(_) => default_config(),
    }
}

/// A configuration whose output minimum is not below its maximum always
/// breaks a rule, so a reload that offers it keeps the previous configuration
/// and table.
pub proof fn lemma_inverted_bounds_rejected(c: InfraredConfig)
    requires
        c.infrared_output_value_minimum >= c.infrared_output_value_maximum,
    ensures
        config_violation(c) is Some,
        !valid_config(c),
{
}

} // verus!
