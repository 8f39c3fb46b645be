//! Instrument and platform metadata, and the batch-scoped catalog that
//! deduplicates it.
//!
//! Two profiles share a metadata record exactly when every descriptive field
//! of their metadata is equal. The catalog keeps the records created during
//! a batch in creation order; a new record is identified by the platform
//! number of the file that introduced it and its position in the catalog
//! (`<platform>_m<position>`).
use vstd::prelude::*;

use crate::text::{copy_texts, decimal, digit_char, is_digit, push_decimal, texts};

verus! {

/// The descriptive fields of a platform/instrument configuration.
#[derive(Debug, Clone, PartialEq)]
pub struct MetaFields {
    pub data_type: String,
    pub format_version: String,
    pub handbook_version: String,
    pub reference_date_time: String,
    pub project_name: String,
    pub pi_name: Vec<String>,
    pub data_centre: String,
    pub dc_reference: String,
    pub platform_type: String,
    pub float_serial_no: String,
    pub firmware_version: String,
    pub wmo_inst_type: String,
    pub positioning_system: String,
}

/// The text of each field of [`MetaFields`].
pub struct MetaView {
    pub data_type: Seq<char>,
    pub format_version: Seq<char>,
    pub handbook_version: Seq<char>,
    pub reference_date_time: Seq<char>,
    pub project_name: Seq<char>,
    pub pi_name: Seq<Seq<char>>,
    pub data_centre: Seq<char>,
    pub dc_reference: Seq<char>,
    pub platform_type: Seq<char>,
    pub float_serial_no: Seq<char>,
    pub firmware_version: Seq<char>,
    pub wmo_inst_type: Seq<char>,
    pub positioning_system: Seq<char>,
}

impl View for MetaFields {
    type V = MetaView;

    open spec fn view(&self) -> MetaView {
        MetaView {
            data_type: self.data_type@,
            format_version: self.format_version@,
            handbook_version: self.handbook_version@,
            reference_date_time: self.reference_date_time@,
            project_name: self.project_name@,
            pi_name: texts(self.pi_name@),
            data_centre: self.data_centre@,
            dc_reference: self.dc_reference@,
            platform_type: self.platform_type@,
            float_serial_no: self.float_serial_no@,
            firmware_version: self.firmware_version@,
            wmo_inst_type: self.wmo_inst_type@,
            positioning_system: self.positioning_system@,
        }
    }
}

impl MetaFields {
    /// A copy of these fields.
    pub fn duplicate(&self) -> (r: MetaFields)
        ensures
            r@ == self@,
    {
        MetaFields {
            data_type: self.data_type.clone(),
            format_version: self.format_version.clone(),
            handbook_version: self.handbook_version.clone(),
            reference_date_time: self.reference_date_time.clone(),
            project_name: self.project_name.clone(),
            pi_name: copy_texts(&self.pi_name),
            data_centre: self.data_centre.clone(),
            dc_reference: self.dc_reference.clone(),
            platform_type: self.platform_type.clone(),
            float_serial_no: self.float_serial_no.clone(),
            firmware_version: self.firmware_version.clone(),
            wmo_inst_type: self.wmo_inst_type.clone(),
            positioning_system: self.positioning_system.clone(),
        }
    }
}

/// A metadata document: its identifier and its descriptive fields.
#[derive(Debug, Clone, PartialEq)]
pub struct MetaRecord {
    pub id: String,
    pub fields: MetaFields,
}

impl View for MetaRecord {
    type V = (Seq<char>, MetaView);

    open spec fn view(&self) -> (Seq<char>, MetaView) {
        (self.id@, self.fields@)
    }
}

/// The views of a sequence of metadata records.
pub open spec fn record_views(v: Seq<MetaRecord>) -> Seq<(Seq<char>, MetaView)> {
    v.map_values(|r: MetaRecord| r@)
}

/// The identifier given to the `k`-th metadata record of a batch, first seen
/// in a file of platform `platform`.
pub open spec fn minted_id(platform: Seq<char>, k: nat) -> Seq<char> {
    platform + seq!['_', 'm'] + decimal(k)
}

/// Whether `id` ends in the marker of position `k`.
pub open spec fn has_position_suffix(id: Seq<char>, k: nat) -> bool {
    let suffix = seq!['_', 'm'] + decimal(k);
    suffix.len() <= id.len() && id.subrange(id.len() - suffix.len(), id.len() as int) == suffix
}

/// The identifier of the first record whose fields are `m`.
pub open spec fn matching_id(records: Seq<(Seq<char>, MetaView)>, m: MetaView) -> Option<Seq<char>>
    decreases records.len(),
{
    if records.len() == 0 {
        None
    } else if records[0].1 == m {
        Some(records[0].0)
    } else {
        matching_id(records.drop_first(), m)
    }
}

/// Resolving `m`, first seen in a file of platform `platform`, against the
/// catalog `records`: the catalog afterwards, the identifier, and whether a
/// record was created.
pub open spec fn resolution(
    records: Seq<(Seq<char>, MetaView)>,
    platform: Seq<char>,
    m: MetaView,
) -> (Seq<(Seq<char>, MetaView)>, Seq<char>, bool) {
    match matching_id(records, m) {
        Some(id) => (records, id, false),
        None => {
            let id = minted_id(platform, records.len());
            (records.push((id, m)), id, true)
        },
    }
}

/// The metadata records created so far in a batch.
pub struct MetaCatalog {
    records: Vec<MetaRecord>,
}

impl View for MetaCatalog {
    type V = Seq<(Seq<char>, MetaView)>;

    closed spec fn view(&self) -> Seq<(Seq<char>, MetaView)> {
        record_views(self.records@)
    }
}

/// Whether the identifier of each record ends in the marker of its position.
pub open spec fn positions_marked(records: Seq<(Seq<char>, MetaView)>) -> bool {
    forall|i: int| 0 <= i < records.len() ==> has_position_suffix(#[trigger] records[i].0, i as nat)
}

proof fn lemma_digit_char_injective(a: nat, b: nat)
    requires
        a < 10,
        b < 10,
        digit_char(a) == digit_char(b),
    ensures
        a == b,
{
}

proof fn lemma_decimal_digits(n: nat)
    ensures
        decimal(n).len() >= 1,
        n >= 10 ==> decimal(n).len() >= 2,
        forall|i: int| 0 <= i < decimal(n).len() ==> is_digit(#[trigger] decimal(n)[i]),
    decreases n,
{
    if n >= 10 {
        lemma_decimal_digits(n / 10);
    }
}

proof fn lemma_decimal_injective(a: nat, b: nat)
    requires
        decimal(a) == decimal(b),
    ensures
        a == b,
    decreases a,
{
    lemma_decimal_digits(a);
    lemma_decimal_digits(b);
    if a < 10 && b < 10 {
        assert(decimal(a)[0] == digit_char(a));
        assert(decimal(b)[0] == digit_char(b));
        lemma_digit_char_injective(a, b);
    } else if a >= 10 && b >= 10 {
        assert(decimal(a).last() == digit_char(a % 10));
        assert(decimal(b).last() == digit_char(b % 10));
        lemma_digit_char_injective(a % 10, b % 10);
        assert(decimal(a / 10) == decimal(a).drop_last());
        assert(decimal(b / 10) == decimal(b).drop_last());
        lemma_decimal_injective(a / 10, b / 10);
    }
}

/// An identifier carries the marker of at most one position.
proof fn lemma_position_suffix_unique(id: Seq<char>, a: nat, b: nat)
    requires
        has_position_suffix(id, a),
        has_position_suffix(id, b),
    ensures
        a == b,
{
    let da = decimal(a);
    let db = decimal(b);
    lemma_decimal_digits(a);
    lemma_decimal_digits(b);
    let n = id.len() as int;
    let sa = seq!['_', 'm'] + da;
    let sb = seq!['_', 'm'] + db;
    if da.len() < db.len() {
        let p = n - da.len() - 1;
        assert(id[p] == sa[1]);
        assert(id[p] == sb[p - (n - sb.len())]);
        assert(is_digit(db[p - (n - sb.len()) - 2]));
    } else if db.len() < da.len() {
        let p = n - db.len() - 1;
        assert(id[p] == sb[1]);
        assert(id[p] == sa[p - (n - sa.len())]);
        assert(is_digit(da[p - (n - sa.len()) - 2]));
    } else {
        assert(sa =~= sb);
        assert(da =~= sa.subrange(2, sa.len() as int));
        assert(db =~= sb.subrange(2, sb.len() as int));
        lemma_decimal_injective(a, b);
    }
}

/// A catalog whose identifiers carry their positions has no two records
/// with the same identifier.
pub proof fn lemma_ids_distinct(records: Seq<(Seq<char>, MetaView)>, i: int, j: int)
    requires
        positions_marked(records),
        0 <= i < records.len(),
        0 <= j < records.len(),
        records[i].0 == records[j].0,
    ensures
        i == j,
{
    lemma_position_suffix_unique(records[i].0, i as nat, j as nat);
}

/// A minted identifier carries the marker of the position it is minted for.
proof fn lemma_minted_marked(platform: Seq<char>, k: nat)
    ensures
        has_position_suffix(minted_id(platform, k), k),
{
    let id = minted_id(platform, k);
    let suffix = seq!['_', 'm'] + decimal(k);
    assert(id =~= platform + suffix);
    assert(id.subrange(id.len() - suffix.len(), id.len() as int) =~= suffix);
}

/// The identifier that `matching_id` finds belongs to a record with those
/// fields.
proof fn lemma_matching_id_found(records: Seq<(Seq<char>, MetaView)>, m: MetaView)
    requires
        matching_id(records, m) is Some,
    ensures
        exists|i: int|
            0 <= i < records.len() && records[i].1 == m && records[i].0 == matching_id(
                records,
                m,
            )->0,
    decreases records.len(),
{
    if records[0].1 != m {
        lemma_matching_id_found(records.drop_first(), m);
        let i = choose|i: int|
            0 <= i < records.drop_first().len() && records.drop_first()[i].1 == m
                && records.drop_first()[i].0 == matching_id(records.drop_first(), m)->0;
        assert(records[i + 1] == records.drop_first()[i]);
    } else {
        assert(records[0].1 == m);
    }
}

/// Resolving leaves a catalog whose identifiers carry their positions, and
/// whose record for the returned identifier has the resolved fields.
pub proof fn lemma_resolution_sound(
    records: Seq<(Seq<char>, MetaView)>,
    platform: Seq<char>,
    m: MetaView,
)
    requires
        positions_marked(records),
    ensures
        positions_marked(resolution(records, platform, m).0),
        exists|i: int|
            0 <= i < resolution(records, platform, m).0.len() && resolution(
                records,
                platform,
                m,
            ).0[i] == (resolution(records, platform, m).1, m),
{
    let after = resolution(records, platform, m).0;
    match matching_id(records, m) {
        Some(id) => {
            lemma_matching_id_found(records, m);
        },
        None => {
            lemma_minted_marked(platform, records.len());
            assert(after[records.len() as int] == (resolution(records, platform, m).1, m));
            assert forall|i: int| 0 <= i < after.len() implies has_position_suffix(
                #[trigger] after[i].0,
                i as nat,
            ) by {
                if i < records.len() {
                    assert(after[i] == records[i]);
                }
            }
        },
    }
}

/// Metadata deduplication: after resolving the metadata of one file and then
/// that of another, both files get the same identifier exactly when all
/// their descriptive fields are equal.
pub proof fn lemma_shared_metadata(
    records: Seq<(Seq<char>, MetaView)>,
    platform_a: Seq<char>,
    a: MetaView,
    platform_b: Seq<char>,
    b: MetaView,
)
    requires
        positions_marked(records),
    ensures
        ({
            let first = resolution(records, platform_a, a);
            let second = resolution(first.0, platform_b, b);
            first.1 == second.1 <==> a == b
        }),
{
    let first = resolution(records, platform_a, a);
    let second = resolution(first.0, platform_b, b);
    lemma_resolution_sound(records, platform_a, a);
    lemma_resolution_sound(first.0, platform_b, b);
    let i = choose|i: int| 0 <= i < first.0.len() && first.0[i] == (first.1, a);
    let j = choose|j: int| 0 <= j < second.0.len() && second.0[j] == (second.1, b);
    if a == b {
        if matching_id(records, a) is None {
            lemma_matching_id_push(records, (first.1, a), a);
        }
    } else if first.1 == second.1 {
        // the second resolution keeps the records of the first
        assert(second.0[i] == first.0[i]);
        lemma_ids_distinct(second.0, i, j);
    }
}

/// Appending a record changes what `matching_id` finds only where nothing
/// matched before.
proof fn lemma_matching_id_push(
    records: Seq<(Seq<char>, MetaView)>,
    extra: (Seq<char>, MetaView),
    m: MetaView,
)
    ensures
        matching_id(records.push(extra), m) == match matching_id(records, m) {
            Some(id) => Some(id),
            None => if extra.1 == m {
                Some(extra.0)
            } else {
                None
            },
        },
    decreases records.len(),
{
    let longer = records.push(extra);
    if records.len() > 0 {
        assert(longer[0] == records[0]);
        assert(longer.drop_first() =~= records.drop_first().push(extra));
        lemma_matching_id_push(records.drop_first(), extra, m);
    } else {
        assert(longer[0] == extra);
        assert(longer.drop_first() =~= Seq::<(Seq<char>, MetaView)>::empty());
        assert(matching_id(longer.drop_first(), m) is None);
    }
}

/// Whether two lists of texts are equal.
fn same_texts(a: &Vec<String>, b: &Vec<String>) -> (r: bool)
    ensures
        r == (texts(a@) == texts(b@)),
{
    if a.len() != b.len() {
        assert(texts(a@).len() != texts(b@).len());
        return false;
    }
    let mut i: usize = 0;
    while i < a.len()
        invariant
            i <= a@.len(),
            a@.len() == b@.len(),
            forall|k: int| 0 <= k < i ==> a@[k]@ == b@[k]@,
        decreases a@.len() - i,
    {
        if a[i] != b[i] {
            assert(texts(a@)[i as int] != texts(b@)[i as int]);
            return false;
        }
        i = i + 1;
    }
    assert(texts(a@) =~= texts(b@));
    true
}

/// Whether two sets of metadata fields are equal field by field.
pub fn same_fields(a: &MetaFields, b: &MetaFields) -> (r: bool)
    ensures
        r == (a@ == b@),
{
    a.data_type == b.data_type && a.format_version == b.format_version && a.handbook_version
        == b.handbook_version && a.reference_date_time == b.reference_date_time && a.project_name
        == b.project_name && same_texts(&a.pi_name, &b.pi_name) && a.data_centre == b.data_centre
        && a.dc_reference == b.dc_reference && a.platform_type == b.platform_type
        && a.float_serial_no == b.float_serial_no && a.firmware_version == b.firmware_version
        && a.wmo_inst_type == b.wmo_inst_type && a.positioning_system == b.positioning_system
}

impl MetaCatalog {
    #[verifier::type_invariant]
    spec fn well_formed(&self) -> bool {
        positions_marked(record_views(self.records@))
    }

    /// An empty catalog.
    pub fn new() -> (r: Self)
        ensures
            r@ == Seq::<(Seq<char>, MetaView)>::empty(),
            positions_marked(r@),
    {
        let r = MetaCatalog { records: Vec::new() };
        assert(r@ =~= Seq::<(Seq<char>, MetaView)>::empty());
        r
    }

    /// The number of records.
    pub fn len(&self) -> (r: usize)
        ensures
            r == self@.len(),
    {
        self.records.len()
    }

    /// The records, in creation order.
    pub fn records(&self) -> (r: &Vec<MetaRecord>)
        ensures
            record_views(r@) == self@,
    {
        &self.records
    }

    /// Finds the record whose fields equal `candidate`, or creates one with
    /// the identifier `<platform_number>_m<number of records>`; returns the
    /// identifier and whether the record is new.
    pub fn resolve(&mut self, platform_number: &String, candidate: MetaFields) -> (r: (
        String,
        bool,
    ))
        ensures
            (final(self)@, r.0@, r.1) == resolution(old(self)@, platform_number@, candidate@),
            positions_marked(old(self)@),
            positions_marked(final(self)@),
    {
        proof {
            use_type_invariant(&*self);
        }
        let ghost start = self@;
        assert(positions_marked(start));
        let mut i: usize = 0;
        assert(start.subrange(0, start.len() as int) =~= start);
        while i < self.records.len()
            invariant
                i <= self.records@.len(),
                self@ == start,
                positions_marked(start),
                matching_id(start, candidate@) == matching_id(
                    start.subrange(i as int, start.len() as int),
                    candidate@,
                ),
            decreases self.records@.len() - i,
        {
            assert(start[i as int] == self.records@[i as int]@);
            if same_fields(&self.records[i].fields, &candidate) {
                return (self.records[i].id.clone(), false);
            }
            assert(start.subrange(i as int, start.len() as int).drop_first() =~= start.subrange(
                i + 1,
                start.len() as int,
            ));
            i = i + 1;
        }
        let mut id = platform_number.clone();
        proof {
            reveal_strlit("_m");
        }
        id.append("_m");
        push_decimal(&mut id, self.records.len() as u64);
        assert(id@ =~= minted_id(platform_number@, start.len()));
        proof {
            lemma_resolution_sound(start, platform_number@, candidate@);
        }
        let record = MetaRecord { id: id.clone(), fields: candidate };
        let mut records: Vec<MetaRecord> = Vec::new();
        std::mem::swap(&mut records, &mut self.records);
        records.push(record);
        assert(record_views(records@) =~= start.push((id@, candidate@)));
        std::mem::swap(&mut records, &mut self.records);
        (id, true)
    }

    /// Withdraws the most recent record if its identifier is `id`, as when
    /// storing it failed; returns whether it did.
    pub fn retract(&mut self, id: &String) -> (r: bool)
        ensures
            r == (old(self)@.len() > 0 && old(self)@.last().0 == id@),
            r ==> final(self)@ == old(self)@.drop_last(),
            !r ==> final(self)@ == old(self)@,
            positions_marked(final(self)@),
    {
        let n = self.records.len();
        if n == 0 {
            return false;
        }
        proof {
            use_type_invariant(&*self);
        }
        if self.records[n - 1].id != *id {
            return false;
        }
        let ghost start = self@;
        let mut records: Vec<MetaRecord> = Vec::new();
        std::mem::swap(&mut records, &mut self.records);
        records.pop();
        assert(record_views(records@) =~= start.drop_last());
        assert forall|i: int|
            0 <= i < record_views(records@).len() implies has_position_suffix(
            #[trigger] record_views(records@)[i].0,
            i as nat,
        ) by {
            assert(record_views(records@)[i] == start[i]);
        }
        std::mem::swap(&mut records, &mut self.records);
        true
    }
}

} // verus!
