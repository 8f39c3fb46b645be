//! Assembly of profile documents.
//!
//! A profile document is identified by `<platform number>_<cycle number>`,
//! locates the profile by a point whose coordinates are longitude then
//! latitude, references its metadata record, and carries the measurements
//! of exactly one processing mode: `realtime_data` in real-time mode,
//! `adjusted_data` otherwise.
use vstd::prelude::*;

use crate::container::Entry;
use crate::extract::{
    copy_values,
    is_realtime,
    realtime_mode,
    ParameterData,
    ParameterView,
    ProfileFields,
    ProfileFieldsView,
};
use crate::text::{copy_texts, push_signed_decimal, signed_decimal, texts};

verus! {

/// A geographic point.
#[derive(Debug, Clone, PartialEq)]
pub struct GeoPoint<N> {
    pub longitude: N,
    pub latitude: N,
}

/// Descriptive information on one measured parameter.
#[derive(Debug, Clone, PartialEq)]
pub struct DataInfo {
    pub data_mode: String,
    pub units: String,
    pub long_name: String,
    pub profile_parameter_qc: String,
}

/// A profile document: one measurement cycle of one float.
///
/// The maps from parameter name (`realtime_data`, `adjusted_data`,
/// `data_info`, `level_qc`, `adjusted_level_qc`) are lists of entries in the
/// order of the file's parameter list. Names are not required to be
/// unique: a parameter listed twice has two entries, and a store that keys
/// documents by name keeps only one of them.
#[derive(Debug, Clone, PartialEq)]
pub struct ProfileRecord<N> {
    pub id: String,
    pub geolocation: GeoPoint<N>,
    pub metadata: Vec<String>,
    pub cycle_number: i32,
    pub direction: String,
    pub data_state_indicator: String,
    pub data_mode: String,
    pub date_creation: String,
    pub date_update: String,
    pub juld: N,
    pub juld_qc: String,
    pub juld_location: N,
    pub position_qc: String,
    pub vertical_sampling_scheme: String,
    pub config_mission_number: i32,
    pub realtime_data: Option<Vec<Entry<Vec<N>>>>,
    pub adjusted_data: Option<Vec<Entry<Vec<N>>>>,
    pub data_info: Option<Vec<Entry<DataInfo>>>,
    pub level_qc: Option<Vec<Entry<Vec<String>>>>,
    pub adjusted_level_qc: Option<Vec<Entry<Vec<String>>>>,
}

/// The meaning of a [`DataInfo`]: processing mode, units, long name and
/// profile quality flag.
pub type DataInfoView = (Seq<char>, Seq<char>, Seq<char>, Seq<char>);

/// The meaning of a [`ProfileRecord`].
pub struct ProfileView<N> {
    pub id: Seq<char>,
    pub longitude: N,
    pub latitude: N,
    pub metadata: Seq<Seq<char>>,
    pub cycle_number: i32,
    pub direction: Seq<char>,
    pub data_state_indicator: Seq<char>,
    pub data_mode: Seq<char>,
    pub date_creation: Seq<char>,
    pub date_update: Seq<char>,
    pub juld: N,
    pub juld_qc: Seq<char>,
    pub juld_location: N,
    pub position_qc: Seq<char>,
    pub vertical_sampling_scheme: Seq<char>,
    pub config_mission_number: i32,
    pub realtime_data: Option<Seq<(Seq<char>, Seq<N>)>>,
    pub adjusted_data: Option<Seq<(Seq<char>, Seq<N>)>>,
    pub data_info: Option<Seq<(Seq<char>, DataInfoView)>>,
    pub level_qc: Option<Seq<(Seq<char>, Seq<Seq<char>>)>>,
    pub adjusted_level_qc: Option<Seq<(Seq<char>, Seq<Seq<char>>)>>,
}

/// The meaning of a map from parameter to values.
pub open spec fn series_view<N>(m: Option<Vec<Entry<Vec<N>>>>) -> Option<Seq<(Seq<char>, Seq<N>)>> {
    match m {
        Some(v) => Some(v@.map_values(|e: Entry<Vec<N>>| (e.name@, e.value@))),
        None => None,
    }
}

/// The meaning of a map from parameter to flags.
pub open spec fn flags_view(m: Option<Vec<Entry<Vec<String>>>>) -> Option<
    Seq<(Seq<char>, Seq<Seq<char>>)>,
> {
    match m {
        Some(v) => Some(v@.map_values(|e: Entry<Vec<String>>| (e.name@, texts(e.value@)))),
        None => None,
    }
}

/// The meaning of a map from parameter to descriptive information.
pub open spec fn info_view(m: Option<Vec<Entry<DataInfo>>>) -> Option<
    Seq<(Seq<char>, DataInfoView)>,
> {
    match m {
        Some(v) => Some(
            v@.map_values(
                |e: Entry<DataInfo>|
                    (
                        e.name@,
                        (
                            e.value.data_mode@,
                            e.value.units@,
                            e.value.long_name@,
                            e.value.profile_parameter_qc@,
                        ),
                    ),
            ),
        ),
        None => None,
    }
}

impl<N> View for ProfileRecord<N> {
    type V = ProfileView<N>;

    open spec fn view(&self) -> ProfileView<N> {
        ProfileView {
            id: self.id@,
            longitude: self.geolocation.longitude,
            latitude: self.geolocation.latitude,
            metadata: texts(self.metadata@),
            cycle_number: self.cycle_number,
            direction: self.direction@,
            data_state_indicator: self.data_state_indicator@,
            data_mode: self.data_mode@,
            date_creation: self.date_creation@,
            date_update: self.date_update@,
            juld: self.juld,
            juld_qc: self.juld_qc@,
            juld_location: self.juld_location,
            position_qc: self.position_qc@,
            vertical_sampling_scheme: self.vertical_sampling_scheme@,
            config_mission_number: self.config_mission_number,
            realtime_data: series_view(self.realtime_data),
            adjusted_data: series_view(self.adjusted_data),
            data_info: info_view(self.data_info),
            level_qc: flags_view(self.level_qc),
            adjusted_level_qc: flags_view(self.adjusted_level_qc),
        }
    }
}

/// The identifier of the profile of cycle `cycle` of platform `platform`.
pub open spec fn profile_id(platform: Seq<char>, cycle: i32) -> Seq<char> {
    platform + seq!['_'] + signed_decimal(cycle as int)
}

/// The measurements of each parameter.
pub open spec fn measurement_map<N>(ps: Seq<ParameterView<N>>) -> Seq<(Seq<char>, Seq<N>)> {
    ps.map_values(|p: ParameterView<N>| (p.name, p.values))
}

/// The raw quality flags of each parameter.
pub open spec fn level_qc_map<N>(ps: Seq<ParameterView<N>>) -> Seq<(Seq<char>, Seq<Seq<char>>)> {
    ps.map_values(|p: ParameterView<N>| (p.name, p.level_qc))
}

/// The adjusted quality flags of each parameter.
pub open spec fn adjusted_level_qc_map<N>(ps: Seq<ParameterView<N>>) -> Seq<
    (Seq<char>, Seq<Seq<char>>),
> {
    ps.map_values(|p: ParameterView<N>| (p.name, p.adjusted_level_qc))
}

/// The descriptive information of each parameter, under processing mode
/// `mode`.
pub open spec fn info_map<N>(ps: Seq<ParameterView<N>>, mode: Seq<char>) -> Seq<
    (Seq<char>, DataInfoView),
> {
    ps.map_values(|p: ParameterView<N>| (p.name, (mode, p.units, p.long_name, p.profile_qc)))
}

/// The profile document built from `f`, referencing metadata `meta_id`.
pub open spec fn assembled<N>(f: ProfileFieldsView<N>, meta_id: Seq<char>) -> ProfileView<N> {
    let realtime = is_realtime(f.data_mode);
    ProfileView {
        id: profile_id(f.platform_number, f.cycle_number),
        longitude: f.longitude,
        latitude: f.latitude,
        metadata: seq![meta_id],
        cycle_number: f.cycle_number,
        direction: f.direction,
        data_state_indicator: f.data_state_indicator,
        data_mode: f.data_mode,
        date_creation: f.date_creation,
        date_update: f.date_update,
        juld: f.juld,
        juld_qc: f.juld_qc,
        juld_location: f.juld_location,
        position_qc: f.position_qc,
        vertical_sampling_scheme: f.vertical_sampling_scheme,
        config_mission_number: f.config_mission_number,
        realtime_data: if realtime {
            Some(measurement_map(f.parameters))
        } else {
            None
        },
        adjusted_data: if realtime {
            None
        } else {
            Some(measurement_map(f.parameters))
        },
        data_info: Some(info_map(f.parameters, f.data_mode)),
        level_qc: Some(level_qc_map(f.parameters)),
        adjusted_level_qc: if realtime {
            None
        } else {
            Some(adjusted_level_qc_map(f.parameters))
        },
    }
}

/// Whether a profile document carries the measurements of exactly one
/// processing mode, and real-time ones exactly in real-time mode.
pub open spec fn mode_exclusive<N>(r: ProfileView<N>) -> bool {
    &&& (r.realtime_data is Some <==> is_realtime(r.data_mode))
    &&& (r.realtime_data is Some <==> r.adjusted_data is None)
}

/// Mode exclusivity: every assembled profile document holds real-time
/// measurements exactly when its processing mode is `R`, and adjusted
/// measurements exactly when it holds no real-time ones.
pub proof fn lemma_mode_exclusive<N>(f: ProfileFieldsView<N>, meta_id: Seq<char>)
    ensures
        mode_exclusive(assembled(f, meta_id)),
{
}

/// Determinism: two documents assembled from the same fields and the same
/// metadata identifier are identical.
pub proof fn lemma_assemble_deterministic<N>(
    f: ProfileFieldsView<N>,
    meta_id: Seq<char>,
    r1: ProfileView<N>,
    r2: ProfileView<N>,
)
    requires
        r1 == assembled(f, meta_id),
        r2 == assembled(f, meta_id),
    ensures
        r1 == r2,
{
}

/// The measurements of each parameter.
fn measurements<N: Copy>(ps: &Vec<ParameterData<N>>) -> (r: Vec<Entry<Vec<N>>>)
    ensures
        series_view(Some(r)) == Some(
            measurement_map(ps@.map_values(|p: ParameterData<N>| p@)),
        ),
{
    let mut out: Vec<Entry<Vec<N>>> = Vec::new();
    let mut i: usize = 0;
    while i < ps.len()
        invariant
            i <= ps@.len(),
            out@.len() == i,
            forall|k: int|
                0 <= k < i ==> out@[k].name@ == ps@[k].name@ && out@[k].value@ == ps@[k].values@,
        decreases ps@.len() - i,
    {
        let p = &ps[i];
        out.push(Entry { name: p.name.clone(), value: copy_values(&p.values, p.values.len()) });
        assert(p.values@.subrange(0, p.values@.len() as int) =~= p.values@);
        i = i + 1;
    }
    assert(series_view(Some(out))->0 =~= measurement_map(
        ps@.map_values(|p: ParameterData<N>| p@),
    ));
    out
}

/// The raw or the adjusted quality flags of each parameter.
fn flag_map<N>(ps: &Vec<ParameterData<N>>, adjusted: bool) -> (r: Vec<Entry<Vec<String>>>)
    ensures
        flags_view(Some(r)) == Some(
            if adjusted {
                adjusted_level_qc_map(ps@.map_values(|p: ParameterData<N>| p@))
            } else {
                level_qc_map(ps@.map_values(|p: ParameterData<N>| p@))
            },
        ),
{
    let mut out: Vec<Entry<Vec<String>>> = Vec::new();
    let mut i: usize = 0;
    while i < ps.len()
        invariant
            i <= ps@.len(),
            out@.len() == i,
            forall|k: int|
                0 <= k < i ==> out@[k].name@ == ps@[k].name@ && texts(out@[k].value@) == (if adjusted {
                    texts(ps@[k].adjusted_level_qc@)
                } else {
                    texts(ps@[k].level_qc@)
                }),
        decreases ps@.len() - i,
    {
        let p = &ps[i];
        let flags = if adjusted {
            copy_texts(&p.adjusted_level_qc)
        } else {
            copy_texts(&p.level_qc)
        };
        out.push(Entry { name: p.name.clone(), value: flags });
        i = i + 1;
    }
    if adjusted {
        assert(flags_view(Some(out))->0 =~= adjusted_level_qc_map(
            ps@.map_values(|p: ParameterData<N>| p@),
        ));
    } else {
        assert(flags_view(Some(out))->0 =~= level_qc_map(
            ps@.map_values(|p: ParameterData<N>| p@),
        ));
    }
    out
}

/// The descriptive information of each parameter under processing mode
/// `mode`.
fn infos<N>(ps: &Vec<ParameterData<N>>, mode: &String) -> (r: Vec<Entry<DataInfo>>)
    ensures
        info_view(Some(r)) == Some(info_map(ps@.map_values(|p: ParameterData<N>| p@), mode@)),
{
    let mut out: Vec<Entry<DataInfo>> = Vec::new();
    let mut i: usize = 0;
    while i < ps.len()
        invariant
            i <= ps@.len(),
            out@.len() == i,
            forall|k: int|
                0 <= k < i ==> {
                    &&& out@[k].name@ == ps@[k].name@
                    &&& out@[k].value.data_mode@ == mode@
                    &&& out@[k].value.units@ == ps@[k].units@
                    &&& out@[k].value.long_name@ == ps@[k].long_name@
                    &&& out@[k].value.profile_parameter_qc@ == ps@[k].profile_qc@
                },
        decreases ps@.len() - i,
    {
        let p = &ps[i];
        let info = DataInfo {
            data_mode: mode.clone(),
            units: p.units.clone(),
            long_name: p.long_name.clone(),
            profile_parameter_qc: p.profile_qc.clone(),
        };
        out.push(Entry { name: p.name.clone(), value: info });
        i = i + 1;
    }
    assert(info_view(Some(out))->0 =~= info_map(ps@.map_values(|p: ParameterData<N>| p@), mode@));
    out
}

/// Builds the profile document of `fields`, referencing the metadata record
/// `metadata_id`.
pub fn assemble<N: Copy>(fields: &ProfileFields<N>, metadata_id: &String) -> (r: ProfileRecord<N>)
    ensures
        r@ == assembled(fields@, metadata_id@),
        mode_exclusive(r@),
{
    let realtime = realtime_mode(&fields.data_mode);
    let mut id = fields.platform_number.clone();
    proof {
        reveal_strlit("_");
    }
    id.append("_");
    push_signed_decimal(&mut id, fields.cycle_number);
    let mut metadata: Vec<String> = Vec::new();
    metadata.push(metadata_id.clone());
    assert(texts(metadata@) =~= seq![metadata_id@]);
    let r = ProfileRecord {
        id,
        geolocation: GeoPoint { longitude: fields.longitude, latitude: fields.latitude },
        metadata,
        cycle_number: fields.cycle_number,
        direction: fields.direction.clone(),
        data_state_indicator: fields.data_state_indicator.clone(),
        data_mode: fields.data_mode.clone(),
        date_creation: fields.date_creation.clone(),
        date_update: fields.date_update.clone(),
        juld: fields.juld,
        juld_qc: fields.juld_qc.clone(),
        juld_location: fields.juld_location,
        position_qc: fields.position_qc.clone(),
        vertical_sampling_scheme: fields.vertical_sampling_scheme.clone(),
        config_mission_number: fields.config_mission_number,
        realtime_data: if realtime {
            Some(measurements(&fields.parameters))
        } else {
            None
        },
        adjusted_data: if realtime {
            None
        } else {
            Some(measurements(&fields.parameters))
        },
        data_info: Some(infos(&fields.parameters, &fields.data_mode)),
        level_qc: Some(flag_map(&fields.parameters, false)),
        adjusted_level_qc: if realtime {
            None
        } else {
            Some(flag_map(&fields.parameters, true))
        },
    };
    assert(r.id@ =~= profile_id(fields.platform_number@, fields.cycle_number));
    r
}

} // verus!
