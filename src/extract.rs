//! Extraction of the fields of one profile from a [`Container`].
//!
//! Text fields are fixed-width and never fail: an absent one reads as empty.
//! Integer and real scalars fall back to sentinels when absent. The
//! measurement array of each parameter named in `STATION_PARAMETERS` is
//! required: it is read from the variable named like the parameter in
//! real-time mode (`DATA_MODE` is `R`) and from `<parameter>_ADJUSTED`
//! otherwise, and its absence fails the whole file. So does the absence of
//! the parameter's own variable, which carries its units and long name.
use vstd::prelude::*;

use crate::catalog::{MetaFields, MetaView};
use crate::container::{lookup, text_or_empty, Container, NumericVariable};
use crate::text::{split_pieces, split_string, texts, trim_white};
use crate::unpack::{first_byte_is, fixed_string, fixed_strings};

verus! {

pub const STRING1: usize = 1;

pub const STRING2: usize = 2;

pub const STRING4: usize = 4;

pub const STRING8: usize = 8;

pub const STRING16: usize = 16;

pub const STRING32: usize = 32;

pub const STRING64: usize = 64;

pub const STRING256: usize = 256;

pub const DATE_TIME: usize = 14;

/// The value recorded for an integer field that the file does not hold.
pub const MISSING_INTEGER: i32 = 99999;

/// The values recorded for real fields that the file does not hold.
#[derive(Debug, Clone, PartialEq)]
pub struct RealFallbacks<N> {
    /// For the measurement and location-fix times.
    pub time: N,
    /// For latitude and longitude.
    pub position: N,
}

/// Why a file could not be converted.
#[derive(Debug, PartialEq)]
pub enum ExtractError {
    /// A dimension that the file must declare is absent.
    MissingDimension(String),
    /// The measurement variable of a declared parameter is absent.
    MissingVariable(String),
    /// The measurement variable of a declared parameter holds fewer values
    /// than there are vertical levels.
    ShortVariable(String),
}

/// The meaning of an [`ExtractError`].
pub enum ExtractFailure {
    MissingDimension(Seq<char>),
    MissingVariable(Seq<char>),
    ShortVariable(Seq<char>),
}

impl View for ExtractError {
    type V = ExtractFailure;

    open spec fn view(&self) -> ExtractFailure {
        match self {
            ExtractError::MissingDimension(s) => ExtractFailure::MissingDimension(s@),
            ExtractError::MissingVariable(s) => ExtractFailure::MissingVariable(s@),
            ExtractError::ShortVariable(s) => ExtractFailure::ShortVariable(s@),
        }
    }
}

/// What one file holds for one measured parameter.
#[derive(Debug, Clone, PartialEq)]
pub struct ParameterData<N> {
    pub name: String,
    /// The measurements of the file's mode, one per vertical level.
    pub values: Vec<N>,
    /// The quality flag of each raw measurement.
    pub level_qc: Vec<String>,
    /// The quality flag of each adjusted measurement; empty in real-time
    /// mode.
    pub adjusted_level_qc: Vec<String>,
    /// The quality flag of the whole profile.
    pub profile_qc: String,
    pub units: String,
    pub long_name: String,
}

/// The meaning of a [`ParameterData`].
pub struct ParameterView<N> {
    pub name: Seq<char>,
    pub values: Seq<N>,
    pub level_qc: Seq<Seq<char>>,
    pub adjusted_level_qc: Seq<Seq<char>>,
    pub profile_qc: Seq<char>,
    pub units: Seq<char>,
    pub long_name: Seq<char>,
}

impl<N> View for ParameterData<N> {
    type V = ParameterView<N>;

    open spec fn view(&self) -> ParameterView<N> {
        ParameterView {
            name: self.name@,
            values: self.values@,
            level_qc: texts(self.level_qc@),
            adjusted_level_qc: texts(self.adjusted_level_qc@),
            profile_qc: self.profile_qc@,
            units: self.units@,
            long_name: self.long_name@,
        }
    }
}

/// The views of a sequence of parameters.
pub open spec fn parameter_views<N>(s: Seq<ParameterData<N>>) -> Seq<ParameterView<N>> {
    s.map_values(|p: ParameterData<N>| p@)
}

/// The fields of one profile, as read from its file.
#[derive(Debug, Clone, PartialEq)]
pub struct ProfileFields<N> {
    pub platform_number: String,
    pub cycle_number: i32,
    pub direction: String,
    pub data_state_indicator: String,
    pub data_mode: String,
    pub date_creation: String,
    pub date_update: String,
    pub juld: N,
    pub juld_qc: String,
    pub juld_location: N,
    pub latitude: N,
    pub longitude: N,
    pub position_qc: String,
    pub vertical_sampling_scheme: String,
    pub config_mission_number: i32,
    pub parameters: Vec<ParameterData<N>>,
    pub meta: MetaFields,
}

/// The meaning of a [`ProfileFields`].
pub struct ProfileFieldsView<N> {
    pub platform_number: Seq<char>,
    pub cycle_number: i32,
    pub direction: Seq<char>,
    pub data_state_indicator: Seq<char>,
    pub data_mode: Seq<char>,
    pub date_creation: Seq<char>,
    pub date_update: Seq<char>,
    pub juld: N,
    pub juld_qc: Seq<char>,
    pub juld_location: N,
    pub latitude: N,
    pub longitude: N,
    pub position_qc: Seq<char>,
    pub vertical_sampling_scheme: Seq<char>,
    pub config_mission_number: i32,
    pub parameters: Seq<ParameterView<N>>,
    pub meta: MetaView,
}

impl<N> View for ProfileFields<N> {
    type V = ProfileFieldsView<N>;

    open spec fn view(&self) -> ProfileFieldsView<N> {
        ProfileFieldsView {
            platform_number: self.platform_number@,
            cycle_number: self.cycle_number,
            direction: self.direction@,
            data_state_indicator: self.data_state_indicator@,
            data_mode: self.data_mode@,
            date_creation: self.date_creation@,
            date_update: self.date_update@,
            juld: self.juld,
            juld_qc: self.juld_qc@,
            juld_location: self.juld_location,
            latitude: self.latitude,
            longitude: self.longitude,
            position_qc: self.position_qc@,
            vertical_sampling_scheme: self.vertical_sampling_scheme@,
            config_mission_number: self.config_mission_number,
            parameters: parameter_views(self.parameters@),
            meta: self.meta@,
        }
    }
}

/// Whether a processing mode is real time.
pub open spec fn is_realtime(mode: Seq<char>) -> bool {
    mode == seq!['R']
}

/// The variable that holds the measurements of parameter `p`.
pub open spec fn measurement_name(p: Seq<char>, realtime: bool) -> Seq<char> {
    if realtime {
        p
    } else {
        p + "_ADJUSTED"@
    }
}

/// What a file holds for parameter `p`, or why it cannot be read: its
/// measurement variable must be present with a value for each level, and
/// its own variable, which carries its units and long name, must be present.
pub open spec fn parameter_result<N>(c: Container<N>, p: Seq<char>, realtime: bool, n_levels: nat) -> Result<
    ParameterView<N>,
    ExtractFailure,
> {
    let var = measurement_name(p, realtime);
    match lookup(c.numerics@, var) {
        None => Err(ExtractFailure::MissingVariable(var)),
        Some(v) => if v.values@.len() < n_levels {
            Err(ExtractFailure::ShortVariable(var))
        } else {
            match lookup(c.numerics@, p) {
                None => Err(ExtractFailure::MissingVariable(p)),
                Some(own) => Ok(
                ParameterView {
                    name: p,
                    values: v.values@.subrange(0, n_levels as int),
                    level_qc: fixed_strings(c.text_of(p + "_QC"@), STRING1 as nat, n_levels),
                    adjusted_level_qc: if realtime {
                        Seq::empty()
                    } else {
                        fixed_strings(c.text_of(p + "_ADJUSTED_QC"@), STRING1 as nat, n_levels)
                    },
                    profile_qc: fixed_string(c.text_of("PROFILE_"@ + p + "_QC"@), STRING1 as nat),
                    units: text_or_empty(own.units),
                    long_name: text_or_empty(own.long_name),
                },
            ),
            }
        },
    }
}

/// What a file holds for the parameters `ps`, in order, or the failure of
/// the first that cannot be read.
pub open spec fn parameters_result<N>(
    c: Container<N>,
    ps: Seq<Seq<char>>,
    realtime: bool,
    n_levels: nat,
) -> Result<Seq<ParameterView<N>>, ExtractFailure>
    decreases ps.len(),
{
    if ps.len() == 0 {
        Ok(Seq::empty())
    } else {
        match parameters_result(c, ps.drop_last(), realtime, n_levels) {
            Err(e) => Err(e),
            Ok(done) => match parameter_result(c, ps.last(), realtime, n_levels) {
                Err(e) => Err(e),
                Ok(v) => Ok(done.push(v)),
            },
        }
    }
}

/// The metadata fields that a file holds.
pub open spec fn meta_view_of<N>(c: Container<N>) -> MetaView {
    MetaView {
        data_type: fixed_string(c.text_of("DATA_TYPE"@), STRING16 as nat),
        format_version: fixed_string(c.text_of("FORMAT_VERSION"@), STRING4 as nat),
        handbook_version: fixed_string(c.text_of("HANDBOOK_VERSION"@), STRING4 as nat),
        reference_date_time: fixed_string(c.text_of("REFERENCE_DATE_TIME"@), DATE_TIME as nat),
        project_name: fixed_string(c.text_of("PROJECT_NAME"@), STRING64 as nat),
        pi_name: split_pieces(fixed_string(c.text_of("PI_NAME"@), STRING64 as nat), ',').map_values(
            |p: Seq<char>| trim_white(p),
        ),
        data_centre: fixed_string(c.text_of("DATA_CENTRE"@), STRING2 as nat),
        dc_reference: fixed_string(c.text_of("DC_REFERENCE"@), STRING32 as nat),
        platform_type: fixed_string(c.text_of("PLATFORM_TYPE"@), STRING32 as nat),
        float_serial_no: fixed_string(c.text_of("FLOAT_SERIAL_NO"@), STRING32 as nat),
        firmware_version: fixed_string(c.text_of("FIRMWARE_VERSION"@), STRING32 as nat),
        wmo_inst_type: fixed_string(c.text_of("WMO_INST_TYPE"@), STRING4 as nat),
        positioning_system: fixed_string(c.text_of("POSITIONING_SYSTEM"@), STRING8 as nat),
    }
}

/// The fields of the profile that a file holds, or why the file cannot be
/// converted.
pub open spec fn extraction<N>(c: Container<N>, fallbacks: RealFallbacks<N>) -> Result<
    ProfileFieldsView<N>,
    ExtractFailure,
> {
    match lookup(c.dimensions@, "N_PARAM"@) {
        None => Err(ExtractFailure::MissingDimension("N_PARAM"@)),
        Some(n_param) => match lookup(c.dimensions@, "N_LEVELS"@) {
            None => Err(ExtractFailure::MissingDimension("N_LEVELS"@)),
            Some(n_levels) => {
                let mode = fixed_string(c.text_of("DATA_MODE"@), STRING1 as nat);
                let names = fixed_strings(
                    c.text_of("STATION_PARAMETERS"@),
                    STRING16 as nat,
                    n_param as nat,
                );
                match parameters_result(c, names, is_realtime(mode), n_levels as nat) {
                    Err(e) => Err(e),
                    Ok(parameters) => Ok(
                        ProfileFieldsView {
                            platform_number: fixed_string(
                                c.text_of("PLATFORM_NUMBER"@),
                                STRING8 as nat,
                            ),
                            cycle_number: c.integer_or("CYCLE_NUMBER"@, MISSING_INTEGER),
                            direction: fixed_string(c.text_of("DIRECTION"@), STRING1 as nat),
                            data_state_indicator: fixed_string(
                                c.text_of("DATA_STATE_INDICATOR"@),
                                STRING4 as nat,
                            ),
                            data_mode: mode,
                            date_creation: fixed_string(
                                c.text_of("DATE_CREATION"@),
                                DATE_TIME as nat,
                            ),
                            date_update: fixed_string(c.text_of("DATE_UPDATE"@), DATE_TIME as nat),
                            juld: c.scalar_or("JULD"@, fallbacks.time),
                            juld_qc: fixed_string(c.text_of("JULD_QC"@), STRING1 as nat),
                            juld_location: c.scalar_or("JULD_LOCATION"@, fallbacks.time),
                            latitude: c.scalar_or("LATITUDE"@, fallbacks.position),
                            longitude: c.scalar_or("LONGITUDE"@, fallbacks.position),
                            position_qc: fixed_string(c.text_of("POSITION_QC"@), STRING1 as nat),
                            vertical_sampling_scheme: fixed_string(
                                c.text_of("VERTICAL_SAMPLING_SCHEME"@),
                                STRING256 as nat,
                            ),
                            config_mission_number: c.integer_or(
                                "CONFIG_MISSION_NUMBER"@,
                                MISSING_INTEGER,
                            ),
                            parameters,
                            meta: meta_view_of(c),
                        },
                    ),
                }
            },
        },
    }
}

/// The meaning of a parameter result.
pub open spec fn parameter_result_view<N>(r: Result<ParameterData<N>, ExtractError>) -> Result<
    ParameterView<N>,
    ExtractFailure,
> {
    match r {
        Ok(p) => Ok(p@),
        Err(e) => Err(e@),
    }
}

/// The meaning of a result over several parameters.
pub open spec fn parameters_result_view<N>(r: Result<Vec<ParameterData<N>>, ExtractError>) -> Result<
    Seq<ParameterView<N>>,
    ExtractFailure,
> {
    match r {
        Ok(p) => Ok(parameter_views(p@)),
        Err(e) => Err(e@),
    }
}

/// The meaning of an extraction result.
pub open spec fn fields_result_view<N>(r: Result<ProfileFields<N>, ExtractError>) -> Result<
    ProfileFieldsView<N>,
    ExtractFailure,
> {
    match r {
        Ok(f) => Ok(f@),
        Err(e) => Err(e@),
    }
}

/// Whether `mode` is the real-time processing mode `R`.
pub fn realtime_mode(mode: &String) -> (r: bool)
    ensures
        r == is_realtime(mode@),
{
    proof {
        reveal_strlit("R");
        assert("R"@ =~= seq!['R']);
    }
    *mode == String::from_str("R")
}

/// `base` followed by `suffix`.
fn joined(base: &String, suffix: &str) -> (r: String)
    ensures
        r@ == base@ + suffix@,
{
    let mut r = base.clone();
    r.append(suffix);
    r
}

/// The name of the variable holding the measurements of parameter `p`:
/// `p` itself in real-time mode, `<p>_ADJUSTED` otherwise.
pub fn measurement_variable(p: &String, realtime: bool) -> (r: String)
    ensures
        r@ == measurement_name(p@, realtime),
{
    if realtime {
        p.clone()
    } else {
        joined(p, "_ADJUSTED")
    }
}

/// A copy of a sequence of values.
pub fn copy_values<N: Copy>(v: &Vec<N>, len: usize) -> (r: Vec<N>)
    requires
        len <= v@.len(),
    ensures
        r@ == v@.subrange(0, len as int),
{
    let mut out: Vec<N> = Vec::new();
    let mut i: usize = 0;
    while i < len
        invariant
            i <= len <= v@.len(),
            out@ == v@.subrange(0, i as int),
        decreases len - i,
    {
        out.push(v[i]);
        i = i + 1;
        assert(out@ =~= v@.subrange(0, i as int));
    }
    out
}

/// The text of an optional attribute, empty where it is absent.
fn attribute_text(s: &Option<String>) -> (r: String)
    ensures
        r@ == text_or_empty(*s),
{
    match s {
        Some(t) => t.clone(),
        None => String::new(),
    }
}

/// Reads what the file holds for parameter `p`.
fn extract_parameter<N: Copy>(c: &Container<N>, p: &String, realtime: bool, n_levels: usize) -> (r:
    Result<ParameterData<N>, ExtractError>)
    ensures
        parameter_result_view(r) == parameter_result(*c, p@, realtime, n_levels as nat),
{
    let var = measurement_variable(p, realtime);
    let k = match c.numeric_index(var.as_str()) {
        Some(k) => k,
        None => {
            return Err(ExtractError::MissingVariable(var));
        },
    };
    let measured: &NumericVariable<N> = &c.numerics[k].value;
    if measured.values.len() < n_levels {
        return Err(ExtractError::ShortVariable(var));
    }
    let values = copy_values(&measured.values, n_levels);
    let qc_name = joined(p, "_QC");
    let level_qc = c.unpack_string_array(qc_name.as_str(), STRING1, n_levels);
    let adjusted_level_qc = if realtime {
        Vec::new()
    } else {
        let adjusted_qc_name = joined(p, "_ADJUSTED_QC");
        c.unpack_string_array(adjusted_qc_name.as_str(), STRING1, n_levels)
    };
    let profile_qc_name = joined(&joined(&String::from_str("PROFILE_"), p.as_str()), "_QC");
    let profile_qc = c.unpack_string(profile_qc_name.as_str(), STRING1);
    let (units, long_name) = match c.numeric_index(p.as_str()) {
        Some(j) => (
            attribute_text(&c.numerics[j].value.units),
            attribute_text(&c.numerics[j].value.long_name),
        ),
        None => {
            return Err(ExtractError::MissingVariable(p.clone()));
        },
    };
    let r = ParameterData {
        name: p.clone(),
        values,
        level_qc,
        adjusted_level_qc,
        profile_qc,
        units,
        long_name,
    };
    assert(texts(r.adjusted_level_qc@) =~= (if realtime {
        Seq::empty()
    } else {
        fixed_strings(c.text_of(p@ + "_ADJUSTED_QC"@), STRING1 as nat, n_levels as nat)
    }));
    Ok(r)
}

proof fn lemma_failure_persists<N>(
    c: Container<N>,
    ps: Seq<Seq<char>>,
    k: int,
    realtime: bool,
    n_levels: nat,
)
    requires
        0 <= k <= ps.len(),
        parameters_result(c, ps.subrange(0, k), realtime, n_levels) is Err,
    ensures
        parameters_result(c, ps, realtime, n_levels) == parameters_result(
            c,
            ps.subrange(0, k),
            realtime,
            n_levels,
        ),
    decreases ps.len() - k,
{
    if k < ps.len() {
        let longer = ps.subrange(0, k + 1);
        assert(longer.drop_last() =~= ps.subrange(0, k));
        assert(longer.subrange(0, k + 1) =~= longer);
        lemma_failure_persists(c, ps, k + 1, realtime, n_levels);
    } else {
        assert(ps.subrange(0, k) =~= ps);
    }
}

/// Reads what the file holds for each parameter named in `names`, stopping
/// at the first that cannot be read.
fn extract_parameters<N: Copy>(
    c: &Container<N>,
    names: &Vec<String>,
    realtime: bool,
    n_levels: usize,
) -> (r: Result<Vec<ParameterData<N>>, ExtractError>)
    ensures
        parameters_result_view(r) == parameters_result(
            *c,
            texts(names@),
            realtime,
            n_levels as nat,
        ),
{
    let ghost all = texts(names@);
    let mut out: Vec<ParameterData<N>> = Vec::new();
    let mut i: usize = 0;
    assert(all.subrange(0, 0) =~= Seq::<Seq<char>>::empty());
    assert(parameter_views(out@) =~= Seq::<ParameterView<N>>::empty());
    while i < names.len()
        invariant
            i <= names@.len(),
            all == texts(names@),
            parameters_result(*c, all.subrange(0, i as int), realtime, n_levels as nat) == Ok::<
                Seq<ParameterView<N>>,
                ExtractFailure,
            >(parameter_views(out@)),
        decreases names@.len() - i,
    {
        let ghost prefix = all.subrange(0, i + 1);
        assert(prefix.drop_last() =~= all.subrange(0, i as int));
        assert(prefix.last() == names@[i as int]@);
        match extract_parameter(c, &names[i], realtime, n_levels) {
            Ok(p) => {
                let ghost before = out@;
                out.push(p);
                assert(parameter_views(out@) =~= parameter_views(before).push(p@));
            },
            Err(e) => {
                proof {
                    lemma_failure_persists(*c, all, i + 1, realtime, n_levels as nat);
                }
                return Err(e);
            },
        }
        i = i + 1;
    }
    assert(all.subrange(0, names@.len() as int) =~= all);
    Ok(out)
}

/// Reads the fields of the profile that `c` holds; fails if a dimension, or
/// the measurement variable or the own variable of a declared parameter, is
/// missing, or if a measurement variable is too short.
pub fn extract_profile<N: Copy>(c: &Container<N>, fallbacks: RealFallbacks<N>) -> (r: Result<
    ProfileFields<N>,
    ExtractError,
>)
    ensures
        fields_result_view(r) == extraction(*c, fallbacks),
        match r {
            Ok(f) => is_realtime(f.data_mode@) <==> first_byte_is(c.text_of("DATA_MODE"@), 0x52u8),
            Err(_) => true,
        },
{
    let n_param = match c.dimension("N_PARAM") {
        Some(n) => n,
        None => {
            return Err(ExtractError::MissingDimension(String::from_str("N_PARAM")));
        },
    };
    let n_levels = match c.dimension("N_LEVELS") {
        Some(n) => n,
        None => {
            return Err(ExtractError::MissingDimension(String::from_str("N_LEVELS")));
        },
    };
    let data_mode = c.unpack_string("DATA_MODE", STRING1);
    let realtime = realtime_mode(&data_mode);
    let names = c.unpack_string_array("STATION_PARAMETERS", STRING16, n_param);
    let parameters = match extract_parameters(c, &names, realtime, n_levels) {
        Ok(p) => p,
        Err(e) => {
            return Err(e);
        },
    };
    let meta = MetaFields {
        data_type: c.unpack_string("DATA_TYPE", STRING16),
        format_version: c.unpack_string("FORMAT_VERSION", STRING4),
        handbook_version: c.unpack_string("HANDBOOK_VERSION", STRING4),
        reference_date_time: c.unpack_string("REFERENCE_DATE_TIME", DATE_TIME),
        project_name: c.unpack_string("PROJECT_NAME", STRING64),
        pi_name: split_string(c.unpack_string("PI_NAME", STRING64), ','),
        data_centre: c.unpack_string("DATA_CENTRE", STRING2),
        dc_reference: c.unpack_string("DC_REFERENCE", STRING32),
        platform_type: c.unpack_string("PLATFORM_TYPE", STRING32),
        float_serial_no: c.unpack_string("FLOAT_SERIAL_NO", STRING32),
        firmware_version: c.unpack_string("FIRMWARE_VERSION", STRING32),
        wmo_inst_type: c.unpack_string("WMO_INST_TYPE", STRING4),
        positioning_system: c.unpack_string("POSITIONING_SYSTEM", STRING8),
    };
    Ok(
        ProfileFields {
            platform_number: c.unpack_string("PLATFORM_NUMBER", STRING8),
            cycle_number: c.unpack_integer("CYCLE_NUMBER", MISSING_INTEGER),
            direction: c.unpack_string("DIRECTION", STRING1),
            data_state_indicator: c.unpack_string("DATA_STATE_INDICATOR", STRING4),
            data_mode,
            date_creation: c.unpack_string("DATE_CREATION", DATE_TIME),
            date_update: c.unpack_string("DATE_UPDATE", DATE_TIME),
            juld: c.unpack_scalar("JULD", fallbacks.time),
            juld_qc: c.unpack_string("JULD_QC", STRING1),
            juld_location: c.unpack_scalar("JULD_LOCATION", fallbacks.time),
            latitude: c.unpack_scalar("LATITUDE", fallbacks.position),
            longitude: c.unpack_scalar("LONGITUDE", fallbacks.position),
            position_qc: c.unpack_string("POSITION_QC", STRING1),
            vertical_sampling_scheme: c.unpack_string("VERTICAL_SAMPLING_SCHEME", STRING256),
            config_mission_number: c.unpack_integer("CONFIG_MISSION_NUMBER", MISSING_INTEGER),
            parameters,
            meta,
        },
    )
}

} // verus!
