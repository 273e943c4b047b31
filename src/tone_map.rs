use vstd::arithmetic::div_mod::lemma_div_is_ordered;
use vstd::prelude::*;

verus! {

/// One unit of a configuration value is a millionth: 1.0 is written 1_000_000.
pub const MICRO: i64 = 1_000_000;

/// The largest raw infrared sample.
pub const SAMPLE_MAX: u32 = 65535;

/// Number of entries of a tone-map table: one per raw 16-bit sample.
pub const LUT_LEN: usize = 65536;

/// Tone-mapping parameters, each in millionths (`MICRO` is 1.0).
#[derive(Clone, Copy, Debug, PartialEq, Eq, Structural)]
pub struct InfraredConfig {
    /// Lowest output intensity, in [0, 1].
    pub infrared_output_value_minimum: i64,
    /// Highest output intensity, in [0, 1], above the minimum.
    pub infrared_output_value_maximum: i64,
    /// Gain applied to the normalised sample, above zero.
    pub infrared_source_scale: i64,
}

/// Why a configuration was not taken.
#[derive(Clone, Copy, Debug, PartialEq, Eq, Structural)]
pub enum ConfigError {
    /// The source could not be read.
    Unreadable,
    /// The source is not a well-formed configuration document.
    Malformed,
    /// The output minimum lies outside [0, 1].
    MinimumOutOfRange,
    /// The output maximum lies outside [0, 1].
    MaximumOutOfRange,
    /// The output minimum is not below the maximum.
    MinimumNotBelowMaximum,
    /// The source scale is zero or negative.
    ScaleNotPositive,
}

/// Both bounds in [0, 1], the minimum strictly below the maximum, and a
/// positive scale.
pub open spec fn valid_config(c: InfraredConfig) -> bool {
    &&& 0 <= c.infrared_output_value_minimum <= MICRO
    &&& 0 <= c.infrared_output_value_maximum <= MICRO
    &&& c.infrared_output_value_minimum < c.infrared_output_value_maximum
    &&& c.infrared_source_scale > 0
}

/// The first rule that `c` breaks, in the order the rules are checked.
pub open spec fn config_violation(c: InfraredConfig) -> Option<ConfigError> {
    if !(0 <= c.infrared_output_value_minimum <= MICRO) {
        Some(ConfigError::MinimumOutOfRange)
    } else if !(0 <= c.infrared_output_value_maximum <= MICRO) {
        Some(ConfigError::MaximumOutOfRange)
    } else if c.infrared_output_value_minimum >= c.infrared_output_value_maximum {
        Some(ConfigError::MinimumNotBelowMaximum)
    } else if c.infrared_source_scale <= 0 {
        Some(ConfigError::ScaleNotPositive)
    } else {
        None
    }
}

/// Common denominator of the tone-map formula: sample range times two
/// millionth scalings.
pub open spec fn lut_denominator() -> int {
    65535 * MICRO * MICRO
}

/// `f = (s / 65535) * scale * (1 - min) + min`, as a numerator over
/// `lut_denominator()`.
pub open spec fn mapped_numerator(c: InfraredConfig, s: int) -> int {
    s * c.infrared_source_scale * (MICRO - c.infrared_output_value_minimum)
        + c.infrared_output_value_minimum * 65535 * MICRO
}

/// `min(max, f)`, as a numerator over `lut_denominator()`.
pub open spec fn capped_numerator(c: InfraredConfig, s: int) -> int {
    let cap = c.infrared_output_value_maximum * 65535 * MICRO;
    if mapped_numerator(c, s) < cap {
        mapped_numerator(c, s)
    } else {
        cap
    }
}

/// Rounds `n / d` to the nearest integer, halves away from zero, for `n >= 0`.
pub open spec fn round_ratio(n: int, d: int) -> int {
    (2 * n + d) / (2 * d)
}

/// The byte that raw sample `s` maps to:
/// `round(clamp(min(max, f) * 255, 0, 255))`.
pub open spec fn lut_entry(c: InfraredConfig, s: int) -> int {
    let b = round_ratio(255 * capped_numerator(c, s), lut_denominator());
    if b < 0 {
        0
    } else if b > 255 {
        255
    } else {
        b
    }
}

/// The whole table for `c`, indexed by raw sample.
pub open spec fn lut_table(c: InfraredConfig) -> Seq<u8> {
    Seq::new(LUT_LEN as nat, |s: int| lut_entry(c, s) as u8)
}

/// Two configurations that agree field by field, to the millionth.
pub open spec fn same_config(a: InfraredConfig, b: InfraredConfig) -> bool {
    &&& a.infrared_output_value_minimum == b.infrared_output_value_minimum
    &&& a.infrared_output_value_maximum == b.infrared_output_value_maximum
    &&& a.infrared_source_scale == b.infrared_source_scale
}

impl InfraredConfig {
    /// Checks the rules of a configuration; returns it unchanged when they
    /// hold, else the first rule it breaks.
    pub fn validate(self) -> (r: Result<InfraredConfig, ConfigError>)
        ensures
            r is Ok <==> valid_config(self),
            r matches Ok(c) ==> c == self,
            r matches Err(e) ==> config_violation(self) == Some(e),
    {
        let min = self.infrared_output_value_minimum;
        let max = self.infrared_output_value_maximum;
        if min < 0 || min > MICRO {
            Err(ConfigError::MinimumOutOfRange)
        } else if max < 0 || max > MICRO {
            Err(ConfigError::MaximumOutOfRange)
        } else if min >= max {
            Err(ConfigError::MinimumNotBelowMaximum)
        } else if self.infrared_source_scale <= 0 {
            Err(ConfigError::ScaleNotPositive)
        } else {
            Ok(self)
        }
    }
}

/// The built-in configuration: minimum 0.25, maximum 1.0, scale 3.0.
pub open spec fn default_config() -> InfraredConfig {
    InfraredConfig {
        infrared_output_value_minimum: 250_000,
        infrared_output_value_maximum: 1_000_000,
        infrared_source_scale: 3_000_000,
    }
}

impl Default for InfraredConfig {
    /// The built-in configuration, used until a valid one is loaded.
    fn default() -> (r: Self)
        ensures
            r == default_config(),
            valid_config(r),
    {
        InfraredConfig {
            infrared_output_value_minimum: 250_000,
            infrared_output_value_maximum: 1_000_000,
            infrared_source_scale: 3_000_000,
        }
    }
}

/// Whether two configurations agree to the millionth; a table needs
/// rebuilding only when they do not.
pub fn configs_equal(a: &InfraredConfig, b: &InfraredConfig) -> (r: bool)
    ensures
        r == same_config(*a, *b),
{
    a.infrared_output_value_minimum == b.infrared_output_value_minimum
        && a.infrared_output_value_maximum == b.infrared_output_value_maximum
        && a.infrared_source_scale == b.infrared_source_scale
}

/// The byte for one raw sample under a valid configuration.
pub fn lut_value(config: &InfraredConfig, sample: u16) -> (r: u8)
    requires
        valid_config(*config),
    ensures
        r as int == lut_entry(*config, sample as int),
{
    let min = config.infrared_output_value_minimum as u128;
    let max = config.infrared_output_value_maximum as u128;
    let scale = config.infrared_source_scale as u128;
    let s = sample as u128;
    let micro: u128 = 1_000_000;
    proof {
        assert(s * scale <= 65535 * (i64::MAX as int)) by (nonlinear_arith)
            requires
                s <= 65535,
                scale <= i64::MAX,
        ;
        assert((s * scale) * (micro - min) <= 65535 * (i64::MAX as int) * 1_000_000)
            by (nonlinear_arith)
            requires
                s * scale <= 65535 * (i64::MAX as int),
                micro - min <= 1_000_000,
                min <= micro,
        ;
        assert(min * 65535 * micro <= 1_000_000 * 65535 * 1_000_000) by (nonlinear_arith)
            requires
                min <= 1_000_000,
                micro == 1_000_000,
        ;
        assert(max * 65535 * micro <= 1_000_000 * 65535 * 1_000_000) by (nonlinear_arith)
            requires
                max <= 1_000_000,
                micro == 1_000_000,
        ;
    }
    let mapped: u128 = s * scale * (micro - min) + min * 65535 * micro;
    let cap: u128 = max * 65535 * micro;
    let capped: u128 = if mapped < cap {
        mapped
    } else {
        cap
    };
    let den: u128 = 65_535_000_000_000_000;
    assert(capped <= 65_535_000_000_000_000);
    assert(510 * capped <= 510 * 65_535_000_000_000_000) by (nonlinear_arith)
        requires
            capped <= 65_535_000_000_000_000,
    ;
    let b: u128 = (510 * capped + den) / (2 * den);
    proof {
        assert(mapped == mapped_numerator(*config, sample as int));
        assert(capped == capped_numerator(*config, sample as int));
        assert(den == lut_denominator());
    }
    if b > 255 {
        255
    } else {
        b as u8
    }
}

/// Builds the table that maps each raw sample to a display byte.
pub fn generate_lut(config: &InfraredConfig) -> (r: Vec<u8>)
    requires
        valid_config(*config),
    ensures
        r@ == lut_table(*config),
{
    let mut lut: Vec<u8> = Vec::with_capacity(LUT_LEN);
    let mut s: u32 = 0;
    while s <= SAMPLE_MAX
        invariant
            valid_config(*config),
            s <= SAMPLE_MAX + 1,
            lut@.len() == s,
            forall|i: int| 0 <= i < s ==> lut@[i] as int == lut_entry(*config, i),
        decreases SAMPLE_MAX + 1 - s,
    {
        let b = lut_value(config, s as u16);
        lut.push(b);
        s = s + 1;
    }
    assert(lut@ =~= lut_table(*config)) by {
        assert forall|i: int| 0 <= i < LUT_LEN implies lut@[i] == lut_table(*config)[i] by {
            lemma_entry_is_byte(*config, i);
        }
    }
    lut
}

/// Every entry is a byte value.
pub proof fn lemma_entry_is_byte(c: InfraredConfig, s: int)
    ensures
        0 <= lut_entry(c, s) <= 255,
        lut_entry(c, s) as u8 as int == lut_entry(c, s),
{
}

/// Configurations that agree to the millionth give identical tables.
pub proof fn lemma_equal_configs_same_table(a: InfraredConfig, b: InfraredConfig)
    requires
        same_config(a, b),
    ensures
        lut_table(a) == lut_table(b),
{
    assert(a == b);
}

/// Under a valid configuration the table never decreases as the raw sample
/// grows.
pub proof fn lemma_table_monotonic(c: InfraredConfig, s1: int, s2: int)
    requires
        valid_config(c),
        0 <= s1 <= s2 < LUT_LEN,
    ensures
        lut_table(c)[s1] <= lut_table(c)[s2],
{
    let g = c.infrared_source_scale as int;
    let m = MICRO - c.infrared_output_value_minimum;
    let k = g * m;
    assert(k >= 0) by (nonlinear_arith)
        requires
            g > 0,
            m >= 0,
            k == g * m,
    ;
    assert(s1 * k <= s2 * k) by (nonlinear_arith)
        requires
            s1 <= s2,
            k >= 0,
    ;
    assert(s1 * g * m == s1 * k) by (nonlinear_arith)
        requires
            k == g * m,
    ;
    assert(s2 * g * m == s2 * k) by (nonlinear_arith)
        requires
            k == g * m,
    ;
    assert(capped_numerator(c, s1) <= capped_numerator(c, s2));
    lemma_div_is_ordered(
        2 * (255 * capped_numerator(c, s1)) + lut_denominator(),
        2 * (255 * capped_numerator(c, s2)) + lut_denominator(),
        2 * lut_denominator(),
    );
    lemma_entry_is_byte(c, s1);
    lemma_entry_is_byte(c, s2);
}

} // verus!
