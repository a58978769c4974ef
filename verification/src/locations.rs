//! The local places the sidebar offers: the home folder, its standard
//! subfolders, and the mounted volumes.
//!
//! Whether each place exists, and which volumes are mounted, is I/O and
//! stays with the caller; this module names the places and orders them.

use vstd::prelude::*;

use crate::browser::display_path;
use crate::path::{decode_lossy, display_model, join_bytes, join_model, NativePath, PathModel};
use crate::reader::bytes_before;
use vstd::utf8::encode_utf8;

verus! {

broadcast use vstd::seq_lib::group_to_multiset_ensures;

#[derive(Clone, Copy, Debug, PartialEq, Eq, Structural)]
pub enum LocalLocationKindDto {
    Home,
    Desktop,
    Downloads,
    Documents,
    Volume,
}

#[derive(Clone, Debug, PartialEq, Eq)]
pub struct LocalLocationDto {
    pub id: String,
    pub kind: LocalLocationKindDto,
    pub name: String,
    pub path: String,
    pub available: bool,
}

#[derive(Clone, Debug, Default, PartialEq, Eq)]
pub struct LocalLocationsDto {
    pub locations: Vec<LocalLocationDto>,
    pub volume_scan_failed: bool,
}

pub struct LocationModel {
    pub id: Seq<char>,
    pub kind: LocalLocationKindDto,
    pub name: Seq<char>,
    pub path: Seq<char>,
    pub available: bool,
}

impl View for LocalLocationDto {
    type V = LocationModel;

    open spec fn view(&self) -> LocationModel {
        LocationModel {
            id: self.id@,
            kind: self.kind,
            name: self.name@,
            path: self.path@,
            available: self.available,
        }
    }
}

/// A place before the caller has checked that it exists.
pub struct LocationCandidate {
    pub id: String,
    pub kind: LocalLocationKindDto,
    pub name: String,
    pub path: NativePath,
}

pub struct CandidateModel {
    pub id: Seq<char>,
    pub kind: LocalLocationKindDto,
    pub name: Seq<char>,
    pub path: PathModel,
}

impl View for LocationCandidate {
    type V = CandidateModel;

    open spec fn view(&self) -> CandidateModel {
        CandidateModel { id: self.id@, kind: self.kind, name: self.name@, path: self.path@ }
    }
}

impl LocationCandidate {
    /// The place as the interface sees it, once the caller knows whether it
    /// is an existing directory.
    pub fn into_dto(self, available: bool) -> (dto: LocalLocationDto)
        ensures
            dto@ == (LocationModel {
                id: self@.id,
                kind: self@.kind,
                name: self@.name,
                path: display_model(self.path.native_bytes()).0,
                available,
            }),
    {
        let path = display_path(&self.path);
        LocalLocationDto { id: self.id, kind: self.kind, name: self.name, path, available }
    }
}

/// Names are ordered as Rust orders strings: byte by byte.
pub open spec fn name_before(a: LocationModel, b: LocationModel) -> bool {
    bytes_before(encode_utf8(a.name), encode_utf8(b.name))
}

pub open spec fn locations_model(locations: Seq<LocalLocationDto>) -> Seq<LocationModel> {
    locations.map_values(|l: LocalLocationDto| l@)
}

/// No place comes after one whose name it should precede.
pub open spec fn sorted_by_name(locations: Seq<LocationModel>) -> bool {
    forall|i: int, j: int|
        0 <= i < j < locations.len() ==> !name_before(#[trigger] locations[j], #[trigger] locations[i])
}

fn string_before(a: &String, b: &String) -> (before: bool)
    ensures
        before == bytes_before(encode_utf8(a@), encode_utf8(b@)),
{
    let left = a.as_str().as_bytes();
    let right = b.as_str().as_bytes();
    let mut i: usize = 0;
    assert(left@.skip(0) =~= left@ && right@.skip(0) =~= right@);
    while i < left.len() && i < right.len()
        invariant
            i <= left@.len() && i <= right@.len(),
            left@ == encode_utf8(a@),
            right@ == encode_utf8(b@),
            bytes_before(left@, right@) == bytes_before(left@.skip(i as int), right@.skip(i as int)),
        decreases left.len() - i,
    {
        if left[i] != right[i] {
            return left[i] < right[i];
        }
        assert(left@.skip(i as int).drop_first() =~= left@.skip(i + 1));
        assert(right@.skip(i as int).drop_first() =~= right@.skip(i + 1));
        i += 1;
    }
    i < right.len()
}

proof fn lemma_name_before_strict(a: LocationModel, b: LocationModel, c: LocationModel)
    ensures
        name_before(a, b) ==> !name_before(b, a),
        name_before(a, b) && name_before(b, c) ==> name_before(a, c),
{
    crate::reader::lemma_bytes_before_order(encode_utf8(a.name), encode_utf8(b.name), encode_utf8(c.name));
}

/// Sorts places by name.
pub fn sort_by_name(locations: Vec<LocalLocationDto>) -> (sorted: Vec<LocalLocationDto>)
    ensures
        locations_model(sorted@).to_multiset() == locations_model(locations@).to_multiset(),
        sorted_by_name(locations_model(sorted@)),
{
    let ghost original = locations_model(locations@);
    let mut remaining = locations;
    let mut sorted: Vec<LocalLocationDto> = Vec::new();
    while remaining.len() > 0
        invariant
            locations_model(sorted@).to_multiset().add(locations_model(remaining@).to_multiset())
                == original.to_multiset(),
            sorted_by_name(locations_model(sorted@)),
        decreases remaining.len(),
    {
        let ghost before_remaining = remaining@;
        let location = remaining.pop().unwrap();
        proof {
            assert(locations_model(before_remaining) =~= locations_model(remaining@).push(location@));
            vstd::seq_lib::to_multiset_build(locations_model(remaining@), location@);
        }
        let mut p: usize = 0;
        while p < sorted.len() && !string_before(&location.name, &sorted[p].name)
            invariant
                p <= sorted@.len(),
                forall|i: int| 0 <= i < p ==> !name_before(location@, #[trigger] sorted@[i]@),
            decreases sorted.len() - p,
        {
            p += 1;
        }
        let ghost old_sorted = locations_model(sorted@);
        proof {
            assert forall|i: int| p <= i < old_sorted.len() implies !name_before(
                #[trigger] old_sorted[i],
                location@,
            ) by {
                assert(name_before(location@, old_sorted[p as int]));
                lemma_name_before_strict(location@, old_sorted[p as int], old_sorted[i]);
                lemma_name_before_strict(old_sorted[i], location@, old_sorted[p as int]);
            }
        }
        let ghost e = location@;
        sorted.insert(p, location);
        proof {
            let new_sorted = locations_model(sorted@);
            assert(new_sorted =~= old_sorted.insert(p as int, e));
            vstd::seq_lib::to_multiset_insert(old_sorted, p as int, e);
            assert forall|i: int, j: int| 0 <= i < j < new_sorted.len() implies !name_before(
                #[trigger] new_sorted[j],
                #[trigger] new_sorted[i],
            ) by {
                if j < p {
                    assert(new_sorted[i] == old_sorted[i] && new_sorted[j] == old_sorted[j]);
                } else if j == p {
                    assert(new_sorted[i] == old_sorted[i]);
                } else if i < p {
                    assert(new_sorted[i] == old_sorted[i] && new_sorted[j] == old_sorted[j - 1]);
                } else if i == p {
                    assert(new_sorted[j] == old_sorted[j - 1]);
                } else {
                    assert(new_sorted[i] == old_sorted[i - 1] && new_sorted[j] == old_sorted[j - 1]);
                }
            }
        }
    }
    proof {
        assert(locations_model(remaining@) =~= Seq::<LocationModel>::empty());
        assert(locations_model(remaining@).to_multiset() =~= vstd::multiset::Multiset::empty());
    }
    sorted
}

/// The bytes of an ASCII text.
pub open spec fn ascii_bytes(text: Seq<char>) -> Seq<u8> {
    text.map_values(|c: char| c as u8)
}

fn owned(text: &str) -> (owned: String)
    ensures
        owned@ == text@,
{
    text.to_owned()
}

/// The standard places under an absolute home folder: the folder itself,
/// then its desktop, downloads and documents folders. A missing or relative
/// home gives none.
pub open spec fn standard_models(home: Option<PathModel>) -> Seq<CandidateModel> {
    match home {
        Some(path) => if path.absolute {
            seq![
                CandidateModel { id: "home"@, kind: LocalLocationKindDto::Home, name: "Home"@, path },
                CandidateModel {
                    id: "desktop"@,
                    kind: LocalLocationKindDto::Desktop,
                    name: "Desktop"@,
                    path: join_model(path, ascii_bytes("Desktop"@)),
                },
                CandidateModel {
                    id: "downloads"@,
                    kind: LocalLocationKindDto::Downloads,
                    name: "Downloads"@,
                    path: join_model(path, ascii_bytes("Downloads"@)),
                },
                CandidateModel {
                    id: "documents"@,
                    kind: LocalLocationKindDto::Documents,
                    name: "Documents"@,
                    path: join_model(path, ascii_bytes("Documents"@)),
                },
            ]
        } else {
            Seq::empty()
        },
        None => Seq::empty(),
    }
}

pub open spec fn candidates_model(candidates: Seq<LocationCandidate>) -> Seq<CandidateModel> {
    candidates.map_values(|c: LocationCandidate| c@)
}

fn ascii_component(text: &str) -> (bytes: Vec<u8>)
    requires
        text@.len() > 0,
        forall|i: int| 0 <= i < text@.len() ==> 'A' <= #[trigger] text@[i] <= 'z',
    ensures
        bytes@ == ascii_bytes(text@),
        crate::path::appendable_component(bytes@),
{
    let bytes = text.as_bytes();
    proof {
        assert(vstd::utf8::is_ascii_chars(text@));
        vstd::utf8::is_ascii_chars_encode_utf8(text@);
        assert(bytes@ =~= ascii_bytes(text@));
        assert(bytes@.len() > 0);
        if bytes@.len() == 1 {
            assert(bytes@[0] != crate::path::DOT);
        }
    }
    crate::path::slice_to_bytes(bytes)
}

#[derive(Clone, Copy, Debug, Default)]
pub struct LocalLocationService;

impl LocalLocationService {
    /// The standard places under `home`.
    pub fn standard_locations(&self, home: Option<NativePath>) -> (candidates: Vec<LocationCandidate>)
        ensures
            candidates_model(candidates@) == standard_models(
                match home {
                    Some(path) => Some(path@),
                    None => None,
                },
            ),
            match home {
                Some(h) => h@.absolute ==> {
                    &&& candidates@[0].path.native_bytes() == h.native_bytes()
                    &&& candidates@[1].path.native_bytes() == join_bytes(h.native_bytes(), ascii_bytes("Desktop"@))
                    &&& candidates@[2].path.native_bytes() == join_bytes(
                        h.native_bytes(),
                        ascii_bytes("Downloads"@),
                    )
                    &&& candidates@[3].path.native_bytes() == join_bytes(
                        h.native_bytes(),
                        ascii_bytes("Documents"@),
                    )
                },
                None => true,
            },
    {
        let mut candidates: Vec<LocationCandidate> = Vec::new();
        let home = match home {
            Some(path) => path,
            None => {
                assert(candidates_model(candidates@) =~= Seq::<CandidateModel>::empty());
                return candidates;
            },
        };
        if !home.is_absolute() {
            assert(candidates_model(candidates@) =~= Seq::<CandidateModel>::empty());
            return candidates;
        }
        proof {
            reveal_strlit("Desktop");
            reveal_strlit("Downloads");
            reveal_strlit("Documents");
        }
        let desktop = home.join_component(ascii_component("Desktop").as_slice());
        let downloads = home.join_component(ascii_component("Downloads").as_slice());
        let documents = home.join_component(ascii_component("Documents").as_slice());
        candidates.push(
            LocationCandidate {
                id: owned("home"),
                kind: LocalLocationKindDto::Home,
                name: owned("Home"),
                path: home,
            },
        );
        candidates.push(
            LocationCandidate {
                id: owned("desktop"),
                kind: LocalLocationKindDto::Desktop,
                name: owned("Desktop"),
                path: desktop,
            },
        );
        candidates.push(
            LocationCandidate {
                id: owned("downloads"),
                kind: LocalLocationKindDto::Downloads,
                name: owned("Downloads"),
                path: downloads,
            },
        );
        candidates.push(
            LocationCandidate {
                id: owned("documents"),
                kind: LocalLocationKindDto::Documents,
                name: owned("Documents"),
                path: documents,
            },
        );
        assert(candidates_model(candidates@) =~= standard_models(
            match Some(home@) {
                Some(path) => Some(path),
                None => None,
            },
        ));
        candidates
    }

    /// A mounted volume named `name` at `path`: its name is the lossy
    /// rendering of `name`, and its identifier is that of `volume:`
    /// followed by `name`.
    pub fn volume_location(&self, name: &[u8], path: NativePath) -> (candidate: LocationCandidate)
        ensures
            candidate@ == (CandidateModel {
                id: display_model(ascii_bytes("volume:"@) + name@).0,
                kind: LocalLocationKindDto::Volume,
                name: display_model(name@).0,
                path: path@,
            }),
    {
        let prefix = "volume:";
        proof {
            reveal_strlit("volume:");
            vstd::utf8::is_ascii_chars_encode_utf8(prefix@);
        }
        let mut id_bytes = crate::path::slice_to_bytes(prefix.as_bytes());
        assert(id_bytes@ =~= ascii_bytes("volume:"@));
        crate::path::append_bytes(&mut id_bytes, name);
        let (id, _) = decode_lossy(id_bytes.as_slice());
        let (display, _) = decode_lossy(name);
        LocationCandidate { id, kind: LocalLocationKindDto::Volume, name: display, path }
    }

    /// The places to show: the standard ones, then the volumes by name. A
    /// volume scan that failed (`None`) leaves no volume and is reported.
    pub fn assemble(&self, standard: Vec<LocalLocationDto>, volumes: Option<Vec<LocalLocationDto>>) -> (result:
        LocalLocationsDto)
        ensures
            result.volume_scan_failed == volumes is None,
            locations_model(result.locations@).take(standard@.len() as int) == locations_model(standard@),
            match volumes {
                Some(v) => {
                    let listed = locations_model(result.locations@).skip(standard@.len() as int);
                    &&& listed.to_multiset() == locations_model(v@).to_multiset()
                    &&& sorted_by_name(listed)
                },
                None => result.locations@.len() == standard@.len(),
            },
    {
        let mut locations = standard;
        let ghost first = locations_model(locations@);
        match volumes {
            Some(found) => {
                let mut sorted = sort_by_name(found);
                let ghost listed = locations_model(sorted@);
                locations.append(&mut sorted);
                assert(locations_model(locations@) =~= first + listed);
                assert(locations_model(locations@).take(first.len() as int) =~= first);
                assert(locations_model(locations@).skip(first.len() as int) =~= listed);
                LocalLocationsDto { locations, volume_scan_failed: false }
            },
            None => {
                assert(locations_model(locations@).take(first.len() as int) =~= first);
                LocalLocationsDto { locations, volume_scan_failed: true }
            },
        }
    }
}

} // verus!
