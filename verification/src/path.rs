//! Native paths, modelled by their components.

use vstd::prelude::*;
use vstd::string::StringSliceAdditionalSpecFns;
use vstd::utf8::*;

verus! {

/// The byte that separates path components.
pub const SEPARATOR: u8 = 0x2f;

/// The byte of a current-directory component.
pub const DOT: u8 = 0x2e;

/// The abstract form of a native path: whether it starts at the root, and its
/// components in order.
pub struct PathModel {
    pub absolute: bool,
    pub components: Seq<Seq<u8>>,
}

pub open spec fn is_current_dir(component: Seq<u8>) -> bool {
    component == seq![DOT]
}

pub open spec fn is_parent_dir(component: Seq<u8>) -> bool {
    component == seq![DOT, DOT]
}

/// A component is a non-empty run of bytes without a separator.
pub open spec fn valid_component(component: Seq<u8>) -> bool {
    &&& component.len() > 0
    &&& forall|i: int| 0 <= i < component.len() ==> component[i] != SEPARATOR
}

/// A component that may be appended to any path: neither empty nor `.`.
pub open spec fn appendable_component(component: Seq<u8>) -> bool {
    valid_component(component) && !is_current_dir(component)
}

/// Every component is valid, and `.` may only open a relative path.
pub open spec fn well_formed_components(absolute: bool, components: Seq<Seq<u8>>) -> bool {
    forall|i: int|
        0 <= i < components.len() ==> {
            &&& valid_component(#[trigger] components[i])
            &&& is_current_dir(components[i]) ==> (i == 0 && !absolute)
        }
}

pub open spec fn well_formed_path(model: PathModel) -> bool {
    well_formed_components(model.absolute, model.components)
}

/// Whether a segment between separators becomes a component: empty segments
/// and `.` vanish, except a `.` that opens a relative path.
pub open spec fn keeps_segment(absolute: bool, kept: Seq<Seq<u8>>, segment: Seq<u8>) -> bool {
    segment.len() > 0 && (!is_current_dir(segment) || (!absolute && kept.len() == 0))
}

pub open spec fn push_segment(absolute: bool, kept: Seq<Seq<u8>>, segment: Seq<u8>) -> Seq<
    Seq<u8>,
> {
    if keeps_segment(absolute, kept, segment) {
        kept.push(segment)
    } else {
        kept
    }
}

/// Splits bytes at separators from the left: the components kept so far and
/// the segment still open at the end.
pub open spec fn scan(absolute: bool, bytes: Seq<u8>) -> (Seq<Seq<u8>>, Seq<u8>)
    decreases bytes.len(),
{
    if bytes.len() == 0 {
        (seq![], seq![])
    } else {
        let (kept, segment) = scan(absolute, bytes.drop_last());
        if bytes.last() == SEPARATOR {
            (push_segment(absolute, kept, segment), seq![])
        } else {
            (kept, segment.push(bytes.last()))
        }
    }
}

pub open spec fn starts_at_root(bytes: Seq<u8>) -> bool {
    bytes.len() > 0 && bytes[0] == SEPARATOR
}

/// The components of a byte path, as the platform reads them.
pub open spec fn parse_path(bytes: Seq<u8>) -> PathModel {
    let absolute = starts_at_root(bytes);
    let (kept, segment) = scan(absolute, bytes);
    PathModel { absolute, components: push_segment(absolute, kept, segment) }
}

/// The byte strings held by a vector of byte vectors.
pub open spec fn byte_strings(v: Seq<Vec<u8>>) -> Seq<Seq<u8>> {
    Seq::new(v.len(), |i: int| v[i]@)
}

/// The parent of a path: the path without its last component.
pub open spec fn parent_model(model: PathModel) -> Option<PathModel> {
    if model.components.len() == 0 {
        None
    } else {
        Some(PathModel { absolute: model.absolute, components: model.components.drop_last() })
    }
}

/// The last component, unless it is `.` or `..` or there is none.
pub open spec fn file_name_model(model: PathModel) -> Option<Seq<u8>> {
    if model.components.len() == 0 {
        None
    } else {
        let last = model.components.last();
        if is_current_dir(last) || is_parent_dir(last) {
            None
        } else {
            Some(last)
        }
    }
}

/// A path with one more component.
pub open spec fn join_model(model: PathModel, name: Seq<u8>) -> PathModel {
    PathModel { absolute: model.absolute, components: model.components.push(name) }
}

/// Whether `base` is a leading part of `model`, component by component.
pub open spec fn starts_with_model(model: PathModel, base: PathModel) -> bool {
    &&& model.absolute == base.absolute
    &&& base.components.len() <= model.components.len()
    &&& model.components.take(base.components.len() as int) == base.components
}

/// Components joined by separators.
pub open spec fn join_components(components: Seq<Seq<u8>>) -> Seq<u8>
    decreases components.len(),
{
    if components.len() == 0 {
        seq![]
    } else if components.len() == 1 {
        components[0]
    } else {
        join_components(components.drop_last()) + seq![SEPARATOR] + components.last()
    }
}

/// The bytes of a path: a leading separator for a rooted path, then its
/// components joined by separators.
pub open spec fn render_path(model: PathModel) -> Seq<u8> {
    if model.absolute {
        seq![SEPARATOR] + join_components(model.components)
    } else {
        join_components(model.components)
    }
}

proof fn lemma_push_segment_well_formed(absolute: bool, kept: Seq<Seq<u8>>, segment: Seq<u8>)
    requires
        well_formed_components(absolute, kept),
        forall|i: int| 0 <= i < segment.len() ==> segment[i] != SEPARATOR,
    ensures
        well_formed_components(absolute, push_segment(absolute, kept, segment)),
{
    if keeps_segment(absolute, kept, segment) {
        let pushed = kept.push(segment);
        assert forall|i: int| 0 <= i < pushed.len() implies {
            &&& valid_component(#[trigger] pushed[i])
            &&& is_current_dir(pushed[i]) ==> (i == 0 && !absolute)
        } by {
            if i < kept.len() {
                assert(pushed[i] == kept[i]);
                assert(valid_component(kept[i]));
            } else {
                assert(pushed[i] == segment);
            }
        }
    }
}

proof fn lemma_scan_well_formed(absolute: bool, bytes: Seq<u8>)
    ensures
        well_formed_components(absolute, scan(absolute, bytes).0),
        forall|i: int|
            0 <= i < scan(absolute, bytes).1.len() ==> scan(absolute, bytes).1[i] != SEPARATOR,
    decreases bytes.len(),
{
    if bytes.len() > 0 {
        let prefix = bytes.drop_last();
        lemma_scan_well_formed(absolute, prefix);
        let (kept, segment) = scan(absolute, prefix);
        if bytes.last() == SEPARATOR {
            lemma_push_segment_well_formed(absolute, kept, segment);
        } else {
            let longer = segment.push(bytes.last());
            assert forall|i: int| 0 <= i < longer.len() implies longer[i] != SEPARATOR by {
                if i < segment.len() {
                    assert(longer[i] == segment[i]);
                }
            }
        }
    }
}

/// The components of a byte path are well formed.
pub proof fn lemma_parse_well_formed(bytes: Seq<u8>)
    ensures
        well_formed_path(parse_path(bytes)),
{
    let absolute = starts_at_root(bytes);
    lemma_scan_well_formed(absolute, bytes);
    let (kept, segment) = scan(absolute, bytes);
    lemma_push_segment_well_formed(absolute, kept, segment);
}

/// Scanning bytes without a separator only extends the open segment.
proof fn lemma_scan_extend(absolute: bool, prefix: Seq<u8>, tail: Seq<u8>)
    requires
        forall|i: int| 0 <= i < tail.len() ==> tail[i] != SEPARATOR,
    ensures
        scan(absolute, prefix + tail) == (scan(absolute, prefix).0, scan(absolute, prefix).1 + tail),
    decreases tail.len(),
{
    if tail.len() == 0 {
        assert(prefix + tail =~= prefix);
        assert(scan(absolute, prefix).1 + tail =~= scan(absolute, prefix).1);
    } else {
        let shorter = tail.drop_last();
        assert((prefix + tail).drop_last() =~= prefix + shorter);
        assert((prefix + tail).last() == tail.last());
        lemma_scan_extend(absolute, prefix, shorter);
        assert((scan(absolute, prefix).1 + shorter).push(tail.last()) =~= scan(absolute, prefix).1 + tail);
    }
}

/// Scanning the components of a path joined by separators, from a closed
/// start with nothing kept, keeps every component but the last, which is
/// left open.
proof fn lemma_scan_join(absolute: bool, start: Seq<u8>, components: Seq<Seq<u8>>)
    requires
        scan(absolute, start) == (Seq::<Seq<u8>>::empty(), Seq::<u8>::empty()),
        components.len() > 0,
        well_formed_components(absolute, components),
    ensures
        scan(absolute, start + join_components(components)) == (components.drop_last(), components.last()),
    decreases components.len(),
{
    assert(valid_component(components[components.len() - 1]));
    if components.len() == 1 {
        lemma_scan_extend(absolute, start, components[0]);
        assert(Seq::<u8>::empty() + components[0] =~= components[0]);
        assert(components.drop_last() =~= Seq::<Seq<u8>>::empty());
    } else {
        let front = components.drop_last();
        assert forall|i: int| 0 <= i < front.len() implies {
            &&& valid_component(#[trigger] front[i])
            &&& is_current_dir(front[i]) ==> (i == 0 && !absolute)
        } by {
            assert(front[i] == components[i]);
            assert(valid_component(components[i]));
        }
        lemma_scan_join(absolute, start, front);
        let opened = start + join_components(front);
        let closed = opened.push(SEPARATOR);
        assert(closed.drop_last() =~= opened);
        assert(valid_component(components[front.len() - 1]));
        assert(front.drop_last().push(front.last()) =~= front);
        assert(scan(absolute, closed) == (front, Seq::<u8>::empty()));
        lemma_scan_extend(absolute, closed, components.last());
        assert(start + join_components(components) =~= closed + components.last());
        assert(Seq::<u8>::empty() + components.last() =~= components.last());
    }
}

/// The first byte of joined components is the first byte of the first one.
proof fn lemma_join_first(components: Seq<Seq<u8>>)
    requires
        components.len() > 0,
        components[0].len() > 0,
    ensures
        join_components(components).len() > 0,
        join_components(components)[0] == components[0][0],
    decreases components.len(),
{
    if components.len() > 1 {
        lemma_join_first(components.drop_last());
    }
}

/// A path reads back from the bytes it renders to: the bytes handed to the
/// platform name exactly the same path.
pub proof fn law_path_bytes_round_trip(model: PathModel)
    requires
        well_formed_path(model),
    ensures
        parse_path(render_path(model)) == model,
{
    let components = model.components;
    let start: Seq<u8> = if model.absolute { seq![SEPARATOR] } else { seq![] };
    let bytes = render_path(model);
    assert(bytes =~= start + join_components(components));
    assert(scan(model.absolute, Seq::<u8>::empty()) == (Seq::<Seq<u8>>::empty(), Seq::<u8>::empty()));
    if model.absolute {
        assert(start.drop_last() =~= Seq::<u8>::empty());
        assert(start.last() == SEPARATOR);
        assert(!keeps_segment(model.absolute, Seq::<Seq<u8>>::empty(), Seq::<u8>::empty()));
    } else {
        assert(start =~= Seq::<u8>::empty());
    }
    assert(scan(model.absolute, start) == (Seq::<Seq<u8>>::empty(), Seq::<u8>::empty()));
    if components.len() == 0 {
        assert(bytes =~= start);
        assert(starts_at_root(bytes) == model.absolute);
        assert(push_segment(model.absolute, Seq::<Seq<u8>>::empty(), Seq::<u8>::empty()) =~= components);
    } else {
        assert(valid_component(components[0]));
        lemma_join_first(components);
        if !model.absolute {
            assert(bytes[0] == components[0][0]);
        }
        assert(starts_at_root(bytes) == model.absolute);
        lemma_scan_join(model.absolute, start, components);
        let last_index = components.len() - 1;
        assert(valid_component(components[last_index]));
        assert(components.drop_last().push(components.last()) =~= components);
    }
}

/// The bytes of `base` with the component `name` appended, as the platform
/// joins them: a separator goes between, unless `base` is empty or already
/// ends with one.
pub open spec fn join_bytes(base: Seq<u8>, name: Seq<u8>) -> Seq<u8> {
    if base.len() == 0 || base.last() == SEPARATOR {
        base + name
    } else {
        base + seq![SEPARATOR] + name
    }
}

/// Joining bytes joins the paths they name.
proof fn lemma_join_bytes(base: Seq<u8>, name: Seq<u8>)
    requires
        appendable_component(name),
    ensures
        parse_path(join_bytes(base, name)) == join_model(parse_path(base), name),
{
    let absolute = starts_at_root(base);
    let joined = join_bytes(base, name);
    assert(name[0] != SEPARATOR);
    if base.len() == 0 {
        assert(joined =~= Seq::<u8>::empty() + name);
        lemma_scan_extend(false, Seq::<u8>::empty(), name);
        assert(Seq::<u8>::empty() + name =~= name);
        assert(starts_at_root(joined) == false);
        assert(parse_path(base).components =~= Seq::<Seq<u8>>::empty());
    } else {
        let closed: Seq<u8> = if base.last() == SEPARATOR {
            base
        } else {
            base + seq![SEPARATOR]
        };
        assert(joined =~= closed + name);
        assert(closed[0] == base[0]);
        assert(starts_at_root(joined) == absolute);
        assert(closed.last() == SEPARATOR);
        let (kept, segment) = scan(absolute, closed.drop_last());
        if base.last() == SEPARATOR {
            assert(scan(absolute, closed).1 =~= Seq::<u8>::empty());
            assert(parse_path(base).components == scan(absolute, base).0);
        } else {
            assert(closed.drop_last() =~= base);
            assert(scan(absolute, closed).0 == push_segment(absolute, scan(absolute, base).0, scan(absolute, base).1));
        }
        lemma_scan_extend(absolute, closed, name);
        assert(scan(absolute, closed).1 + name =~= name);
    }
}

/// The offsets at which the components of `bytes` that a separator closes
/// end: the prefix up to the `k`-th offset names the path of the first
/// `k + 1` components.
fn component_ends(bytes: &[u8]) -> (ends: Vec<usize>)
    ensures
        ends@.len() + 1 >= parse_path(bytes@).components.len(),
        forall|k: int|
            0 <= k < ends@.len() ==> ends@[k] <= bytes@.len() && parse_path(bytes@.take(#[trigger] ends@[k] as int))
                == (PathModel {
                absolute: starts_at_root(bytes@),
                components: parse_path(bytes@).components.take(k + 1),
            }),
{
    let absolute = bytes.len() > 0 && bytes[0] == SEPARATOR;
    let mut kept: Vec<Vec<u8>> = Vec::new();
    let mut segment: Vec<u8> = Vec::new();
    let mut ends: Vec<usize> = Vec::new();
    let mut i: usize = 0;
    while i < bytes.len()
        invariant
            i <= bytes@.len(),
            absolute == starts_at_root(bytes@),
            (byte_strings(kept@), segment@) == scan(absolute, bytes@.take(i as int)),
            ends@.len() == kept@.len(),
            forall|k: int|
                0 <= k < ends@.len() ==> ends@[k] <= i && parse_path(bytes@.take(#[trigger] ends@[k] as int))
                    == (PathModel { absolute, components: byte_strings(kept@).take(k + 1) }),
        decreases bytes.len() - i,
    {
        assert(bytes@.take(i + 1).drop_last() =~= bytes@.take(i as int));
        let b = bytes[i];
        if b == SEPARATOR {
            let before = kept.len();
            let ghost old_kept = byte_strings(kept@);
            let ghost old_segment = segment@;
            proof {
                if i == 0 {
                    assert(bytes@.take(0) =~= Seq::<u8>::empty());
                    assert(old_segment.len() == 0);
                }
            }
            push_segment_vec(absolute, &mut kept, segment);
            segment = Vec::new();
            proof {
                assert(byte_strings(kept@).len() == kept@.len());
                assert(old_kept.len() == before);
                assert(kept@.len() == before || kept@.len() == before + 1);
            }
            if kept.len() > before {
                proof {
                    let prefix = bytes@.take(i as int);
                    assert(prefix.len() > 0);
                    assert(prefix[0] == bytes@[0]);
                    assert(starts_at_root(prefix) == absolute);
                    assert(byte_strings(kept@).take(before + 1) =~= byte_strings(kept@));
                }
                ends.push(i);
            }
            proof {
                assert forall|k: int| 0 <= k < ends@.len() implies ends@[k] <= i + 1 && parse_path(
                    bytes@.take(#[trigger] ends@[k] as int),
                ) == (PathModel { absolute, components: byte_strings(kept@).take(k + 1) }) by {
                    if k < before {
                        assert(byte_strings(kept@).take(k + 1) =~= old_kept.take(k + 1));
                    }
                }
            }
        } else {
            segment.push(b);
        }
        i += 1;
    }
    assert(bytes@.take(bytes@.len() as int) =~= bytes@);
    let ghost final_kept = byte_strings(kept@);
    proof {
        let components = parse_path(bytes@).components;
        assert(components == push_segment(absolute, final_kept, segment@));
        assert forall|k: int| 0 <= k < ends@.len() implies ends@[k] <= bytes@.len() && parse_path(
            bytes@.take(#[trigger] ends@[k] as int),
        ) == (PathModel { absolute: starts_at_root(bytes@), components: components.take(k + 1) }) by {
            assert(components.take(k + 1) =~= final_kept.take(k + 1));
        }
    }
    ends
}

/// The first `end` bytes of `bytes`.
fn prefix_bytes(bytes: &[u8], end: usize) -> (prefix: Vec<u8>)
    requires
        end <= bytes@.len(),
    ensures
        prefix@ == bytes@.take(end as int),
{
    let mut prefix: Vec<u8> = Vec::new();
    let mut i: usize = 0;
    while i < end
        invariant
            i <= end <= bytes@.len(),
            prefix@ == bytes@.take(i as int),
        decreases end - i,
    {
        prefix.push(bytes[i]);
        i += 1;
        assert(prefix@ =~= bytes@.take(i as int));
    }
    prefix
}

/// A native path. It keeps the bytes it was made from exactly, so names
/// that are not valid UTF-8, repeated separators and a trailing separator
/// survive unchanged; its view is the path those bytes name. It is never
/// serialised, and it has no `Debug` rendering, so logs and error texts
/// cannot disclose it.
pub struct NativePath {
    raw: Vec<u8>,
    absolute: bool,
    components: Vec<Vec<u8>>,
}

impl View for NativePath {
    type V = PathModel;

    closed spec fn view(&self) -> PathModel {
        PathModel { absolute: self.absolute, components: byte_strings(self.components@) }
    }
}

impl NativePath {
    #[verifier::type_invariant]
    closed spec fn well_formed(self) -> bool {
        &&& well_formed_path(self@)
        &&& parse_path(self.raw@) == self@
    }

    /// The bytes the path is made of, exactly as they were given.
    pub closed spec fn native_bytes(&self) -> Seq<u8> {
        self.raw@
    }

    /// Reads a path from UTF-8 text.
    pub fn new(text: &str) -> (path: NativePath)
        ensures
            path@ == parse_path(text.spec_bytes()),
            path.native_bytes() == text.spec_bytes(),
    {
        NativePath::from_bytes(text.as_bytes())
    }

    /// The path with no components: `/` when rooted, else empty.
    pub fn empty(absolute: bool) -> (path: NativePath)
        ensures
            path@ == (PathModel { absolute, components: seq![] }),
            path.native_bytes() == if absolute {
                seq![SEPARATOR]
            } else {
                Seq::<u8>::empty()
            },
    {
        let raw: Vec<u8> = if absolute {
            vec![SEPARATOR]
        } else {
            Vec::new()
        };
        proof {
            assert(scan(absolute, Seq::<u8>::empty()) == (Seq::<Seq<u8>>::empty(), Seq::<u8>::empty()));
            if absolute {
                assert(raw@.drop_last() =~= Seq::<u8>::empty());
                assert(!keeps_segment(absolute, Seq::<Seq<u8>>::empty(), Seq::<u8>::empty()));
            } else {
                assert(raw@ =~= Seq::<u8>::empty());
            }
            assert(parse_path(raw@).components =~= Seq::<Seq<u8>>::empty());
            assert(starts_at_root(raw@) == absolute);
        }
        let components: Vec<Vec<u8>> = Vec::new();
        assert(byte_strings(components@) =~= seq![]);
        let path = NativePath { raw, absolute, components };
        path
    }

    pub fn is_absolute(&self) -> (absolute: bool)
        ensures
            absolute == self@.absolute,
    {
        self.absolute
    }

    pub fn component_count(&self) -> (count: usize)
        ensures
            count == self@.components.len(),
    {
        self.components.len()
    }

    /// A copy that names the same path.
    pub fn duplicate(&self) -> (copy: NativePath)
        ensures
            copy@ == self@,
            copy.native_bytes() == self.native_bytes(),
    {
        proof {
            use_type_invariant(self);
        }
        let mut components: Vec<Vec<u8>> = Vec::new();
        let mut i: usize = 0;
        while i < self.components.len()
            invariant
                i <= self.components@.len(),
                components@.len() == i,
                byte_strings(components@) =~= byte_strings(self.components@).take(i as int),
            decreases self.components.len() - i,
        {
            let copy = copy_bytes(&self.components[i]);
            let ghost previous = components@;
            components.push(copy);
            proof {
                let target = byte_strings(self.components@).take(i + 1);
                assert forall|j: int| 0 <= j < i + 1 implies byte_strings(components@)[j]
                    == target[j] by {
                    if j < i {
                        assert(components@[j] == previous[j]);
                        assert(byte_strings(previous)[j] == previous[j]@);
                    }
                }
                assert(byte_strings(components@) =~= target);
            }
            i += 1;
        }
        let raw = copy_bytes(&self.raw);
        assert(byte_strings(self.components@).take(i as int) =~= byte_strings(self.components@));
        assert(byte_strings(components@) == byte_strings(self.components@));
        let copy = NativePath { raw, absolute: self.absolute, components };
        copy
    }

    /// The path without its last component; `None` when it has none. Its
    /// bytes are the leading part of this path's bytes that names it.
    pub fn parent(&self) -> (parent: Option<NativePath>)
        ensures
            parent is Some <==> parent_model(self@) is Some,
            parent matches Some(p) ==> p@ == parent_model(self@)->0,
            parent matches Some(p) ==> p.native_bytes().len() <= self.native_bytes().len()
                && p.native_bytes() == self.native_bytes().take(p.native_bytes().len() as int),
    {
        proof {
            use_type_invariant(self);
        }
        let count = self.components.len();
        if count == 0 {
            return None;
        }
        let raw: Vec<u8> = if count == 1 {
            if self.absolute {
                proof {
                    assert(self.raw@.take(1) =~= seq![SEPARATOR]);
                    assert(scan(true, Seq::<u8>::empty()) == (Seq::<Seq<u8>>::empty(), Seq::<u8>::empty()));
                    assert(seq![SEPARATOR].drop_last() =~= Seq::<u8>::empty());
                    assert(!keeps_segment(true, Seq::<Seq<u8>>::empty(), Seq::<u8>::empty()));
                    assert(parse_path(seq![SEPARATOR]).components =~= Seq::<Seq<u8>>::empty());
                }
                vec![SEPARATOR]
            } else {
                proof {
                    assert(self.raw@.take(0) =~= Seq::<u8>::empty());
                    assert(parse_path(Seq::<u8>::empty()).components =~= Seq::<Seq<u8>>::empty());
                }
                Vec::new()
            }
        } else {
            let ends = component_ends(self.raw.as_slice());
            let end = ends[count - 2];
            proof {
                assert(self@.components.take(count - 1) =~= self@.components.drop_last());
                assert(parse_path(self.raw@.take(ends@[count - 2] as int)) == (PathModel {
                    absolute: starts_at_root(self.raw@),
                    components: self@.components.take(count - 1),
                }));
                assert(starts_at_root(self.raw@) == self@.absolute);
            }
            prefix_bytes(self.raw.as_slice(), end)
        };
        let mut copy = self.duplicate();
        proof {
            use_type_invariant(&copy);
        }
        let mut components = copy.components;
        components.pop();
        assert(byte_strings(components@) =~= self@.components.drop_last());
        proof {
            if count == 1 {
                if self.absolute {
                    assert(raw@ =~= seq![SEPARATOR]);
                } else {
                    assert(raw@ =~= Seq::<u8>::empty());
                }
                assert(self@.components.drop_last() =~= Seq::<Seq<u8>>::empty());
            }
        }
        assert(parse_path(raw@) == (PathModel { absolute: self.absolute, components: byte_strings(components@) }));
        Some(NativePath { raw, absolute: self.absolute, components })
    }

    /// The last component, unless it is `.` or `..`.
    pub fn file_name(&self) -> (name: Option<Vec<u8>>)
        ensures
            name is Some <==> file_name_model(self@) is Some,
            name matches Some(n) ==> n@ == file_name_model(self@)->0,
            name matches Some(n) ==> appendable_component(n@),
    {
        proof {
            use_type_invariant(self);
            if self@.components.len() > 0 {
                assert(valid_component(self@.components[self@.components.len() - 1]));
            }
        }
        let count = self.components.len();
        if count == 0 {
            return None;
        }
        let last = &self.components[count - 1];
        assert(last@ == self@.components.last());
        let is_dot = last.len() == 1 && last[0] == DOT;
        let is_dot_dot = last.len() == 2 && last[0] == DOT && last[1] == DOT;
        proof {
            if last@.len() == 1 && last@[0] == DOT {
                assert(last@ =~= seq![DOT]);
            }
            if last@.len() == 2 && last@[0] == DOT && last@[1] == DOT {
                assert(last@ =~= seq![DOT, DOT]);
            }
        }
        if is_dot || is_dot_dot {
            None
        } else {
            Some(copy_bytes(last))
        }
    }

    /// The path with `name` appended as its last component.
    pub fn join_component(&self, name: &[u8]) -> (joined: NativePath)
        requires
            appendable_component(name@),
        ensures
            joined@ == join_model(self@, name@),
            joined.native_bytes() == join_bytes(self.native_bytes(), name@),
    {
        proof {
            use_type_invariant(self);
            lemma_join_bytes(self.raw@, name@);
        }
        let mut raw = copy_bytes(&self.raw);
        if raw.len() > 0 && raw[raw.len() - 1] != SEPARATOR {
            raw.push(SEPARATOR);
        }
        append_bytes(&mut raw, name);
        assert(raw@ =~= join_bytes(self.raw@, name@));
        let copy = self.duplicate();
        let mut components = copy.components;
        components.push(slice_to_bytes(name));
        assert(byte_strings(components@) =~= self@.components.push(name@));
        let joined = NativePath { raw, absolute: self.absolute, components };
        proof {
            let c = joined@.components;
            assert forall|i: int| 0 <= i < c.len() implies {
                &&& valid_component(#[trigger] c[i])
                &&& is_current_dir(c[i]) ==> (i == 0 && !joined@.absolute)
            } by {
                if i < self@.components.len() {
                    assert(c[i] == self@.components[i]);
                }
            }
        }
        joined
    }

    /// Whether `base` is a leading part of this path, component by component.
    pub fn starts_with(&self, base: &NativePath) -> (starts: bool)
        ensures
            starts == starts_with_model(self@, base@),
    {
        if self.absolute != base.absolute || base.components.len() > self.components.len() {
            return false;
        }
        let mut i: usize = 0;
        while i < base.components.len()
            invariant
                i <= base.components@.len() <= self.components@.len(),
                forall|j: int| 0 <= j < i ==> self@.components[j] == base@.components[j],
            decreases base.components.len() - i,
        {
            if !bytes_equal(&self.components[i], &base.components[i]) {
                assert(self@.components.take(base@.components.len() as int)[i as int]
                    != base@.components[i as int]);
                return false;
            }
            i += 1;
        }
        assert(self@.components.take(base@.components.len() as int) =~= base@.components);
        true
    }

    /// Whether both name the same path, component by component.
    pub fn same_path(&self, other: &NativePath) -> (same: bool)
        ensures
            same == (self@ == other@),
    {
        if self.components.len() != other.components.len() {
            return false;
        }
        let starts = self.starts_with(other);
        proof {
            if starts {
                assert(self@.components =~= other@.components);
            }
            if self@ == other@ {
                assert(self@.components.take(other@.components.len() as int) =~= self@.components);
            }
        }
        starts
    }

    /// The bytes of the path, exactly as it was made from them.
    pub fn to_bytes(&self) -> (bytes: Vec<u8>)
        ensures
            bytes@ == self.native_bytes(),
            parse_path(bytes@) == self@,
    {
        proof {
            use_type_invariant(self);
        }
        copy_bytes(&self.raw)
    }

    /// Reads a path from its bytes.
    pub fn from_bytes(bytes: &[u8]) -> (path: NativePath)
        ensures
            path@ == parse_path(bytes@),
            path.native_bytes() == bytes@,
            well_formed_path(path@),
    {
        let absolute = bytes.len() > 0 && bytes[0] == SEPARATOR;
        let mut kept: Vec<Vec<u8>> = Vec::new();
        let mut segment: Vec<u8> = Vec::new();
        let mut i: usize = 0;
        while i < bytes.len()
            invariant
                i <= bytes@.len(),
                absolute == starts_at_root(bytes@),
                (byte_strings(kept@), segment@) == scan(absolute, bytes@.take(i as int)),
            decreases bytes.len() - i,
        {
            assert(bytes@.take(i + 1).drop_last() =~= bytes@.take(i as int));
            let b = bytes[i];
            if b == SEPARATOR {
                push_segment_vec(absolute, &mut kept, segment);
                segment = Vec::new();
            } else {
                segment.push(b);
            }
            i += 1;
        }
        assert(bytes@.take(bytes@.len() as int) =~= bytes@);
        push_segment_vec(absolute, &mut kept, segment);
        proof {
            lemma_parse_well_formed(bytes@);
        }
        let raw = slice_to_bytes(bytes);
        NativePath { raw, absolute, components: kept }
    }
}

/// A fresh vector with the same bytes.
pub fn copy_bytes(bytes: &Vec<u8>) -> (copy: Vec<u8>)
    ensures
        copy@ == bytes@,
{
    slice_to_bytes(bytes.as_slice())
}

/// A vector holding the bytes of a slice.
pub fn slice_to_bytes(bytes: &[u8]) -> (copy: Vec<u8>)
    ensures
        copy@ == bytes@,
{
    let mut copy: Vec<u8> = Vec::new();
    let mut i: usize = 0;
    while i < bytes.len()
        invariant
            i <= bytes@.len(),
            copy@ == bytes@.take(i as int),
        decreases bytes.len() - i,
    {
        copy.push(bytes[i]);
        i += 1;
        assert(copy@ =~= bytes@.take(i as int));
    }
    assert(bytes@.take(bytes@.len() as int) =~= bytes@);
    copy
}

/// Appends the bytes of `tail` to `bytes`.
pub fn append_bytes(bytes: &mut Vec<u8>, tail: &[u8])
    ensures
        final(bytes)@ == old(bytes)@ + tail@,
{
    let mut i: usize = 0;
    while i < tail.len()
        invariant
            i <= tail@.len(),
            bytes@ == old(bytes)@ + tail@.take(i as int),
        decreases tail.len() - i,
    {
        bytes.push(tail[i]);
        i += 1;
        assert(bytes@ =~= old(bytes)@ + tail@.take(i as int));
    }
    assert(tail@.take(tail@.len() as int) =~= tail@);
}

/// Byte-wise equality.
pub fn bytes_equal(left: &[u8], right: &[u8]) -> (equal: bool)
    ensures
        equal == (left@ == right@),
{
    if left.len() != right.len() {
        return false;
    }
    let mut i: usize = 0;
    while i < left.len()
        invariant
            i <= left@.len() == right@.len(),
            forall|j: int| 0 <= j < i ==> left@[j] == right@[j],
        decreases left.len() - i,
    {
        if left[i] != right[i] {
            return false;
        }
        i += 1;
    }
    assert(left@ =~= right@);
    true
}

fn push_segment_vec(absolute: bool, kept: &mut Vec<Vec<u8>>, segment: Vec<u8>)
    ensures
        byte_strings(final(kept)@) == push_segment(absolute, byte_strings(old(kept)@), segment@),
{
    let keep = if segment.len() == 0 {
        false
    } else if segment.len() == 1 && segment[0] == DOT {
        !absolute && kept.len() == 0
    } else {
        true
    };
    proof {
        if segment@.len() == 1 && segment@[0] == DOT {
            assert(segment@ =~= seq![DOT]);
        }
    }
    if keep {
        kept.push(segment);
        assert(byte_strings(kept@) =~= byte_strings(old(kept)@).push(segment@));
    }
}

/// The text that `String::from_utf8_lossy` renders for bytes that are not
/// valid UTF-8.
pub uninterp spec fn lossy_utf8_text(bytes: Seq<u8>) -> Seq<char>;

/// Calls `String::from_utf8_lossy`. Valid UTF-8 is decoded as it is and comes
/// back borrowed; other bytes come back owned, with replacement characters
/// whose placement this contract leaves to the name `lossy_utf8_text`.
#[verifier::external_body]
pub(crate) fn decode_lossy(bytes: &[u8]) -> (decoded: (String, bool))
    ensures
        decoded.1 == !valid_utf8(bytes@),
        valid_utf8(bytes@) ==> decoded.0@ == decode_utf8(bytes@),
        !valid_utf8(bytes@) ==> decoded.0@ == lossy_utf8_text(bytes@),
{
    match String::from_utf8_lossy(bytes) {
        std::borrow::Cow::Borrowed(text) => (text.to_owned(), false),
        std::borrow::Cow::Owned(text) => (text, true),
    }
}

/// The text a native name renders as, and whether the rendering lost bytes.
pub open spec fn display_model(bytes: Seq<u8>) -> (Seq<char>, bool) {
    if valid_utf8(bytes) {
        (decode_utf8(bytes), false)
    } else {
        (lossy_utf8_text(bytes), true)
    }
}

/// A UI-safe rendering of a native file name. The text holds replacement
/// characters where the name is not valid UTF-8, and `is_lossy` says so; file
/// operations keep using the [`NativePath`].
#[derive(Clone, PartialEq, Eq)]
pub struct DisplayName {
    text: String,
    is_lossy: bool,
}

impl View for DisplayName {
    type V = (Seq<char>, bool);

    closed spec fn view(&self) -> (Seq<char>, bool) {
        (self.text@, self.is_lossy)
    }
}

impl DisplayName {
    /// Renders the bytes of a native name.
    pub fn from_bytes(bytes: &[u8]) -> (name: Self)
        ensures
            name@ == display_model(bytes@),
    {
        let (text, is_lossy) = decode_lossy(bytes);
        DisplayName { text, is_lossy }
    }

    pub fn as_str(&self) -> (text: &str)
        ensures
            text@ == self@.0,
    {
        self.text.as_str()
    }

    pub fn is_lossy(&self) -> (is_lossy: bool)
        ensures
            is_lossy == self@.1,
    {
        self.is_lossy
    }

    /// A copy with the same text and flag.
    pub fn duplicate(&self) -> (copy: Self)
        ensures
            copy@ == self@,
    {
        DisplayName { text: self.text.clone(), is_lossy: self.is_lossy }
    }
}

} // verus!
