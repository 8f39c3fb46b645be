//! Conversion of one profile file within a batch.
//!
//! Each file yields one profile document. Its metadata is resolved against
//! the batch's [`MetaCatalog`]; a metadata record that the file introduces
//! is handed back so that it can be stored, and withdrawn from the catalog
//! with [`MetaCatalog::retract`] if storing fails.
use vstd::prelude::*;

use crate::catalog::{
    lemma_shared_metadata,
    positions_marked,
    resolution,
    MetaCatalog,
    MetaRecord,
    MetaView,
};
use crate::container::Container;
use crate::extract::{
    extract_profile,
    extraction,
    ExtractError,
    ProfileFieldsView,
    RealFallbacks,
};
use crate::record::{assemble, assembled, mode_exclusive, ProfileRecord, ProfileView};

verus! {

/// The documents produced for one file.
#[derive(Debug, Clone, PartialEq)]
pub struct Converted<N> {
    pub profile: ProfileRecord<N>,
    /// The metadata record the file introduced, if its metadata was new to
    /// the batch.
    pub new_metadata: Option<MetaRecord>,
}

/// What converting a file whose fields are `f` against the catalog
/// `records` yields: the profile document, the metadata record introduced
/// (if any), and the catalog afterwards.
pub open spec fn conversion<N>(records: Seq<(Seq<char>, MetaView)>, f: ProfileFieldsView<N>) -> (
    ProfileView<N>,
    Option<(Seq<char>, MetaView)>,
    Seq<(Seq<char>, MetaView)>,
) {
    let (after, id, created) = resolution(records, f.platform_number, f.meta);
    (
        assembled(f, id),
        if created {
            Some((id, f.meta))
        } else {
            None
        },
        after,
    )
}

/// Whether `r` and the catalog `after` are what converting the file `c`
/// against the catalog `before` gives.
pub open spec fn converts<N>(
    c: Container<N>,
    fallbacks: RealFallbacks<N>,
    before: Seq<(Seq<char>, MetaView)>,
    r: Result<Converted<N>, ExtractError>,
    after: Seq<(Seq<char>, MetaView)>,
) -> bool {
    match extraction(c, fallbacks) {
        Err(e) => match r {
            Err(got) => got@ == e && after == before,
            Ok(_) => false,
        },
        Ok(f) => match r {
            Ok(out) => {
                let (profile, introduced, catalog) = conversion(before, f);
                &&& out.profile@ == profile
                &&& after == catalog
                &&& match out.new_metadata {
                    Some(m) => introduced == Some(m@),
                    None => introduced is None,
                }
            },
            Err(_) => false,
        },
    }
}

/// Converts the file that `c` holds: extracts its fields, resolves its
/// metadata against `catalog`, and assembles its profile document.
pub fn convert_file<N: Copy>(
    c: &Container<N>,
    fallbacks: RealFallbacks<N>,
    catalog: &mut MetaCatalog,
) -> (r: Result<Converted<N>, ExtractError>)
    ensures
        converts(*c, fallbacks, old(catalog)@, r, final(catalog)@),
        match r {
            Ok(out) => mode_exclusive(out.profile@),
            Err(_) => true,
        },
{
    let fields = match extract_profile(c, fallbacks) {
        Ok(f) => f,
        Err(e) => {
            return Err(e);
        },
    };
    let (id, created) = catalog.resolve(&fields.platform_number, fields.meta.duplicate());
    let profile = assemble(&fields, &id);
    let new_metadata = if created {
        Some(MetaRecord { id, fields: fields.meta.duplicate() })
    } else {
        None
    };
    Ok(Converted { profile, new_metadata })
}

/// Deduplication across files: after converting one file and then another,
/// their profile documents reference the same metadata record exactly when
/// the descriptive metadata fields of the two files are equal.
pub proof fn lemma_files_share_metadata<N>(
    records: Seq<(Seq<char>, MetaView)>,
    a: ProfileFieldsView<N>,
    b: ProfileFieldsView<N>,
)
    requires
        positions_marked(records),
    ensures
        ({
            let first = conversion(records, a);
            let second = conversion(first.2, b);
            first.0.metadata == second.0.metadata <==> a.meta == b.meta
        }),
{
    let first = resolution(records, a.platform_number, a.meta);
    let second = resolution(first.0, b.platform_number, b.meta);
    lemma_shared_metadata(records, a.platform_number, a.meta, b.platform_number, b.meta);
    assert(seq![first.1][0] == first.1);
    assert(seq![second.1][0] == second.1);
}

} // verus!
