//! Validated local-only asset references and the placeholder-family asset manifest.

use vstd::prelude::*;

use crate::text::{
    chars_of, contains_char, has_prefix, has_prefix_at, has_prefix_chars, slice_equals,
};

verus! {

/// `s[a..b]` is one of the pieces that splitting `s` at every `/` produces.
pub open spec fn segment_bounds(s: Seq<char>, a: int, b: int) -> bool {
    &&& 0 <= a <= b <= s.len()
    &&& (a == 0 || s[a - 1] == '/')
    &&& (b == s.len() || s[b] == '/')
    &&& forall|k: int| a <= k < b ==> s[k] != '/'
}

/// A path segment that is empty, `.` or `..`.
pub open spec fn bad_segment(seg: Seq<char>) -> bool {
    seg.len() == 0 || seg == "."@ || seg == ".."@
}

/// Some `/`-separated segment of `s` is empty, `.` or `..`.
pub open spec fn has_bad_segment(s: Seq<char>) -> bool {
    exists|a: int, b: int| #[trigger] segment_bounds(s, a, b) && bad_segment(s.subrange(a, b))
}

/// The first index at or after `from` holding `/`.
pub open spec fn first_slash_from(s: Seq<char>, from: int) -> Option<int>
    decreases s.len() - from,
{
    if from < 0 || from >= s.len() {
        None
    } else if s[from] == '/' {
        Some(from)
    } else {
        first_slash_from(s, from + 1)
    }
}

/// For a path `crates/<crate>/<dir>/<rest>` with a non-empty remainder after the second slash
/// or not, the `<dir>` segment; `None` unless the path starts with `crates/` and has at least
/// two more slashes.
pub open spec fn spec_crate_local_media_directory(s: Seq<char>) -> Option<Seq<char>> {
    if !has_prefix(s, "crates/"@) {
        None
    } else {
        let r = s.subrange("crates/"@.len() as int, s.len() as int);
        match first_slash_from(r, 0) {
            None => None,
            Some(i1) => match first_slash_from(r, i1 + 1) {
                None => None,
                Some(i2) => Some(r.subrange(i1 + 1, i2)),
            },
        }
    }
}

/// A crate-local `assets/`, `art/` or `audio/` media path.
pub open spec fn spec_is_crate_local_media_path(s: Seq<char>) -> bool {
    match spec_crate_local_media_directory(s) {
        Some(d) => d == "assets"@ || d == "art"@ || d == "audio"@,
        None => false,
    }
}

/// A non-empty relative path rooted in a local-media directory, without backslashes, NUL,
/// colons, a leading slash, or an empty, `.` or `..` segment.
pub open spec fn valid_asset_path(s: Seq<char>) -> bool {
    &&& s.len() > 0
    &&& !s.contains('\\')
    &&& !s.contains('\0')
    &&& !has_prefix(s, "/"@)
    &&& !s.contains(':')
    &&& !has_bad_segment(s)
    &&& (has_prefix(s, "assets/"@) || has_prefix(s, "art/"@) || has_prefix(s, "audio/"@)
        || spec_is_crate_local_media_path(s))
}

/// A path rooted in root `audio/`, `assets/audio/`, or a crate-local `audio/` directory.
pub open spec fn spec_is_audio_path(s: Seq<char>) -> bool {
    has_prefix(s, "audio/"@) || has_prefix(s, "assets/audio/"@)
        || spec_crate_local_media_directory(s) == Some("audio"@)
}

fn first_slash(v: &Vec<char>, from: usize) -> (r: Option<usize>)
    requires
        from <= v@.len(),
    ensures
        match r {
            Some(i) => first_slash_from(v@, from as int) == Some(i as int) && from <= i < v@.len(),
            None => first_slash_from(v@, from as int) is None,
        },
    decreases v@.len() - from,
{
    if from == v.len() {
        return None;
    }
    if v[from] == '/' {
        Some(from)
    } else {
        first_slash(v, from + 1)
    }
}

proof fn lemma_first_slash_shift(s: Seq<char>, off: int, from: int)
    requires
        0 <= off <= s.len(),
        0 <= from,
    ensures
        first_slash_from(s.subrange(off, s.len() as int), from) == match first_slash_from(
            s,
            off + from,
        ) {
            None => None::<int>,
            Some(i) => Some(i - off),
        },
    decreases s.len() - off - from,
{
    let r = s.subrange(off, s.len() as int);
    if from < r.len() {
        assert(r[from] == s[off + from]);
        lemma_first_slash_shift(s, off, from + 1);
    }
}

/// Returns the media-directory segment of a crate-local path `crates/<crate>/<dir>/...`.
pub fn crate_local_media_directory(path: &str) -> (r: Option<&str>)
    ensures
        match r {
            Some(d) => spec_crate_local_media_directory(path@) == Some(d@),
            None => spec_crate_local_media_directory(path@) is None,
        },
{
    let v = chars_of(path);
    let n = v.len();
    if !has_prefix_chars(&v, "crates/") {
        return None;
    }
    let start = "crates/".unicode_len();
    proof {
        lemma_first_slash_shift(v@, start as int, 0);
    }
    let i1 = match first_slash(&v, start) {
        Some(i) => i,
        None => return None,
    };
    proof {
        lemma_first_slash_shift(v@, start as int, i1 - start + 1);
    }
    let i2 = match first_slash(&v, i1 + 1) {
        Some(i) => i,
        None => return None,
    };
    let d = path.substring_char(i1 + 1, i2);
    proof {
        let r = v@.subrange(start as int, v@.len() as int);
        assert(r.subrange(i1 - start + 1, i2 - start) =~= v@.subrange(i1 + 1, i2 as int));
    }
    Some(d)
}

/// Returns whether a path lies in a crate-local `assets/`, `art/` or `audio/` directory.
pub fn is_crate_local_media_path(path: &str) -> (r: bool)
    ensures
        r == spec_is_crate_local_media_path(path@),
{
    match crate_local_media_directory(path) {
        Some(d) => {
            let dv = chars_of(d);
            let n = dv.len();
            proof {
                assert(dv@.subrange(0, n as int) =~= dv@);
            }
            slice_equals(&dv, 0, n, "assets") || slice_equals(&dv, 0, n, "art")
                || slice_equals(&dv, 0, n, "audio")
        },
        None => false,
    }
}

fn has_bad_segment_chars(v: &Vec<char>) -> (r: bool)
    ensures
        r == has_bad_segment(v@),
{
    let ghost s = v@;
    let n = v.len();
    let mut start: usize = 0;
    let mut i: usize = 0;
    while i < n
        invariant
            n == s.len(),
            s == v@,
            start <= i <= n,
            start == 0 || s[start - 1] == '/',
            forall|k: int| start <= k < i ==> s[k] != '/',
            forall|a: int, b: int|
                #[trigger] segment_bounds(s, a, b) && b < start ==> !bad_segment(s.subrange(a, b)),
        decreases n - i,
    {
        if v[i] == '/' {
            proof {
                assert forall|a: int| #[trigger] segment_bounds(s, a, i as int) implies a == start by {
                    if a < start {
                        assert(s[start - 1] == '/');
                    }
                    if a > start {
                        assert(s[a - 1] == '/');
                    }
                }
                assert(segment_bounds(s, start as int, i as int));
            }
            if i == start || slice_equals(v, start, i, ".") || slice_equals(v, start, i, "..") {
                return true;
            }
            start = i + 1;
        }
        i += 1;
    }
    proof {
        assert forall|a: int| #[trigger] segment_bounds(s, a, n as int) implies a == start by {
            if a < start {
                assert(s[start - 1] == '/');
            }
            if a > start {
                assert(s[a - 1] == '/');
            }
        }
        assert(segment_bounds(s, start as int, n as int));
    }
    n == start || slice_equals(v, start, n, ".") || slice_equals(v, start, n, "..")
}

/// A validated relative path to a local-only presentation asset.
#[derive(Debug, PartialEq, Eq)]
pub struct PresentationAssetReference {
    path: String,
}

impl View for PresentationAssetReference {
    type V = Seq<char>;

    closed spec fn view(&self) -> Seq<char> {
        self.path@
    }
}

impl Clone for PresentationAssetReference {
    fn clone(&self) -> (r: Self)
        ensures
            r@ == self@,
    {
        proof {
            use_type_invariant(self);
        }
        PresentationAssetReference { path: self.path.clone() }
    }
}

impl PresentationAssetReference {
    #[verifier::type_invariant]
    closed spec fn valid(self) -> bool {
        valid_asset_path(self.path@)
    }

    /// Creates a reference when `path` is a valid local-media path.
    pub fn new(path: &str) -> (r: Option<Self>)
        ensures
            r is Some <==> valid_asset_path(path@),
            r matches Some(reference) ==> reference@ == path@,
    {
        let v = chars_of(path);
        let rooted = has_prefix_chars(&v, "assets/") || has_prefix_chars(&v, "art/")
            || has_prefix_chars(&v, "audio/") || is_crate_local_media_path(path);
        if v.len() == 0 || contains_char(&v, '\\') || contains_char(&v, '\0') || has_prefix_chars(
            &v,
            "/",
        ) || contains_char(&v, ':') || has_bad_segment_chars(&v) || !rooted {
            return None;
        }
        Some(PresentationAssetReference { path: String::from_str(path) })
    }

    /// Returns the validated relative path without reading or loading it.
    pub fn path(&self) -> (r: &str)
        ensures
            r@ == self@,
            valid_asset_path(r@),
    {
        proof {
            use_type_invariant(self);
        }
        self.path.as_str()
    }

    /// Returns whether this reference is rooted in a root `audio/`, `assets/audio/`, or
    /// crate-local `audio/` directory.
    pub fn is_audio_path(&self) -> (r: bool)
        ensures
            r == spec_is_audio_path(self@),
    {
        let v = chars_of(self.path.as_str());
        if has_prefix_chars(&v, "audio/") || has_prefix_chars(&v, "assets/audio/") {
            return true;
        }
        match crate_local_media_directory(self.path.as_str()) {
            Some(d) => {
                let dv = chars_of(d);
                let n = dv.len();
                let r = slice_equals(&dv, 0, n, "audio");
                assert(dv@.subrange(0, n as int) =~= dv@);
                r
            },
            None => false,
        }
    }
}

} // verus!

verus! {

/// Distinct slot numbers below `n`, `n` of them, take every slot below `n`.
pub proof fn lemma_distinct_slots_cover(slots: Seq<int>, n: int)
    requires
        slots.len() == n,
        slots.no_duplicates(),
        forall|k: int| 0 <= k < slots.len() ==> 0 <= #[trigger] slots[k] < n,
    ensures
        forall|s: int| 0 <= s < n ==> #[trigger] slots.contains(s),
{
    slots.unique_seq_to_set();
    vstd::set_lib::lemma_int_range(0, n);
    let range = vstd::set_lib::set_int_range(0, n);
    assert(slots.to_set().subset_of(range));
    vstd::set_lib::lemma_len_subset(slots.to_set(), range);
    vstd::set_lib::lemma_subset_equality(slots.to_set(), range);
    assert forall|s: int| 0 <= s < n implies #[trigger] slots.contains(s) by {
        assert(range.contains(s));
        assert(slots.to_set().contains(s));
    }
}

/// The placeholder family used by the renderer before production assets are loaded.
#[derive(Clone, Copy, Debug, PartialEq, Eq, Structural, Hash)]
pub enum SceneRenderPlaceholder {
    Terrain,
    Player,
    Enemy,
    DeadActor,
    GroundItem,
    InventoryItem,
}

impl SceneRenderPlaceholder {
    /// The slot of each family in `0..6`, in declaration order.
    pub open spec fn slot(self) -> int {
        match self {
            SceneRenderPlaceholder::Terrain => 0,
            SceneRenderPlaceholder::Player => 1,
            SceneRenderPlaceholder::Enemy => 2,
            SceneRenderPlaceholder::DeadActor => 3,
            SceneRenderPlaceholder::GroundItem => 4,
            SceneRenderPlaceholder::InventoryItem => 5,
        }
    }

    /// Returns the slot of this family in `0..6`.
    pub fn index(self) -> (r: usize)
        ensures
            r == self.slot(),
            r < 6,
    {
        match self {
            SceneRenderPlaceholder::Terrain => 0,
            SceneRenderPlaceholder::Player => 1,
            SceneRenderPlaceholder::Enemy => 2,
            SceneRenderPlaceholder::DeadActor => 3,
            SceneRenderPlaceholder::GroundItem => 4,
            SceneRenderPlaceholder::InventoryItem => 5,
        }
    }
}

/// The family whose slot is `s`.
pub open spec fn placeholder_of_slot(s: int) -> SceneRenderPlaceholder {
    if s == 0 {
        SceneRenderPlaceholder::Terrain
    } else if s == 1 {
        SceneRenderPlaceholder::Player
    } else if s == 2 {
        SceneRenderPlaceholder::Enemy
    } else if s == 3 {
        SceneRenderPlaceholder::DeadActor
    } else if s == 4 {
        SceneRenderPlaceholder::GroundItem
    } else {
        SceneRenderPlaceholder::InventoryItem
    }
}

/// The path of each binding, paired with its family.
pub open spec fn placeholder_binding_views(
    s: Seq<(SceneRenderPlaceholder, PresentationAssetReference)>,
) -> Seq<(SceneRenderPlaceholder, Seq<char>)> {
    s.map_values(|b: (SceneRenderPlaceholder, PresentationAssetReference)| (b.0, b.1@))
}

/// No family is bound twice.
pub open spec fn distinct_placeholders(s: Seq<(SceneRenderPlaceholder, Seq<char>)>) -> bool {
    forall|a: int, b: int| 0 <= a < b < s.len() ==> #[trigger] s[a].0 != #[trigger] s[b].0
}

/// Some binding has family `f`.
pub open spec fn placeholder_is_bound(
    s: Seq<(SceneRenderPlaceholder, Seq<char>)>,
    f: SceneRenderPlaceholder,
) -> bool {
    exists|k: int| 0 <= k < s.len() && #[trigger] s[k].0 == f
}

/// Every family is bound.
pub open spec fn complete_placeholders(s: Seq<(SceneRenderPlaceholder, Seq<char>)>) -> bool {
    forall|f: SceneRenderPlaceholder| #[trigger] placeholder_is_bound(s, f)
}

/// Some binding maps `family` to `path`.
pub open spec fn placeholder_bound_to(
    s: Seq<(SceneRenderPlaceholder, Seq<char>)>,
    family: SceneRenderPlaceholder,
    path: Seq<char>,
) -> bool {
    exists|k: int| 0 <= k < s.len() && #[trigger] s[k].0 == family && s[k].1 == path
}

/// With no family bound twice, a family is bound to at most one path.
pub proof fn lemma_placeholder_binding_unique(
    s: Seq<(SceneRenderPlaceholder, Seq<char>)>,
    family: SceneRenderPlaceholder,
    p: Seq<char>,
    q: Seq<char>,
)
    requires
        distinct_placeholders(s),
        placeholder_bound_to(s, family, p),
        placeholder_bound_to(s, family, q),
    ensures
        p == q,
{
    let a = choose|k: int| 0 <= k < s.len() && #[trigger] s[k].0 == family && s[k].1 == p;
    let b = choose|k: int| 0 <= k < s.len() && #[trigger] s[k].0 == family && s[k].1 == q;
    if a < b {
        assert(s[a].0 != s[b].0);
    } else if b < a {
        assert(s[b].0 != s[a].0);
    }
}

/// A complete mapping from the six placeholder families to local-only asset references.
#[derive(Debug, PartialEq, Eq)]
pub struct PresentationAssetManifest {
    bindings: Vec<(SceneRenderPlaceholder, PresentationAssetReference)>,
}

impl View for PresentationAssetManifest {
    type V = Seq<(SceneRenderPlaceholder, Seq<char>)>;

    closed spec fn view(&self) -> Seq<(SceneRenderPlaceholder, Seq<char>)> {
        placeholder_binding_views(self.bindings@)
    }
}

impl PresentationAssetManifest {
    #[verifier::type_invariant]
    closed spec fn complete(self) -> bool {
        &&& self@.len() == 6
        &&& distinct_placeholders(self@)
        &&& complete_placeholders(self@)
    }

    /// Creates a manifest from six bindings of distinct families, or `None` otherwise.
    ///
    /// Six distinct families out of six are all of them, so every family is bound.
    pub fn new(bindings: Vec<(SceneRenderPlaceholder, PresentationAssetReference)>) -> (r: Option<
        Self,
    >)
        ensures
            r is Some <==> (bindings@.len() == 6 && distinct_placeholders(
                placeholder_binding_views(bindings@),
            )),
            r matches Some(m) ==> m@ == placeholder_binding_views(bindings@) && complete_placeholders(
                m@,
            ),
    {
        let ghost view = placeholder_binding_views(bindings@);
        if bindings.len() != 6 {
            return None;
        }
        let mut seen: Vec<bool> = Vec::new();
        let mut k: usize = 0;
        while k < 6
            invariant
                k <= 6,
                seen@.len() == k,
                forall|s: int| 0 <= s < k ==> !#[trigger] seen@[s],
            decreases 6 - k,
        {
            seen.push(false);
            k += 1;
        }
        let mut i: usize = 0;
        while i < 6
            invariant
                bindings@.len() == 6,
                view == placeholder_binding_views(bindings@),
                i <= 6,
                seen@.len() == 6,
                forall|s: int|
                    0 <= s < 6 ==> (#[trigger] seen@[s] <==> exists|m: int|
                        0 <= m < i && #[trigger] view[m].0.slot() == s),
                forall|a: int, b: int| 0 <= a < b < i ==> #[trigger] view[a].0 != #[trigger] view[b].0,
            decreases 6 - i,
        {
            let slot = bindings[i].0.index();
            assert(view[i as int].0 == bindings@[i as int].0);
            if seen[slot] {
                proof {
                    let m = choose|m: int| 0 <= m < i && #[trigger] view[m].0.slot() == slot;
                    assert(view[m].0 == view[i as int].0);
                }
                return None;
            }
            seen.set(slot, true);
            proof {
                assert forall|s: int|
                    0 <= s < 6 implies (#[trigger] seen@[s] <==> exists|m: int|
                    0 <= m < i + 1 && #[trigger] view[m].0.slot() == s) by {
                    if s == slot {
                        assert(view[i as int].0.slot() == s);
                    }
                }
            }
            i += 1;
        }
        proof {
            let slots = view.map_values(|b: (SceneRenderPlaceholder, Seq<char>)| b.0.slot());
            assert(slots.no_duplicates());
            lemma_distinct_slots_cover(slots, 6);
            assert forall|f: SceneRenderPlaceholder| #[trigger] placeholder_is_bound(view, f) by {
                assert(slots.contains(f.slot()));
                let k = choose|k: int| 0 <= k < slots.len() && slots[k] == f.slot();
                assert(view[k].0 == f);
            }
        }
        Some(PresentationAssetManifest { bindings })
    }

    /// Returns bindings in authored order; every family is bound exactly once.
    pub fn bindings(&self) -> (r: &[(SceneRenderPlaceholder, PresentationAssetReference)])
        ensures
            placeholder_binding_views(r@) == self@,
            self@.len() == 6,
            distinct_placeholders(self@),
            complete_placeholders(self@),
    {
        proof {
            use_type_invariant(self);
        }
        self.bindings.as_slice()
    }

    /// Returns the reference bound to one placeholder family.
    pub fn reference(&self, family: SceneRenderPlaceholder) -> (r: &PresentationAssetReference)
        ensures
            placeholder_bound_to(self@, family, r@),
            distinct_placeholders(self@),
    {
        proof {
            use_type_invariant(self);
        }
        let ghost view = self@;
        let mut k: usize = 0;
        while k < self.bindings.len()
            invariant
                view == self@,
                view.len() == 6,
                complete_placeholders(view),
                distinct_placeholders(view),
                view == placeholder_binding_views(self.bindings@),
                k <= self.bindings@.len(),
                forall|m: int| 0 <= m < k ==> #[trigger] view[m].0 != family,
            decreases self.bindings@.len() - k,
        {
            if self.bindings[k].0 == family {
                assert(view[k as int].0 == family);
                return &self.bindings[k].1;
            }
            assert(view[k as int].0 == self.bindings@[k as int].0);
            k += 1;
        }
        proof {
            assert(placeholder_is_bound(view, family));
            let m = choose|m: int| 0 <= m < view.len() && #[trigger] view[m].0 == family;
            assert(view[m].0 != family);
        }
        &self.bindings[0].1
    }
}

} // verus!

verus! {

/// The showcase binding of each placeholder family to its image under `assets/dreadstep/`.
pub open spec fn showcase_asset_paths() -> Seq<(SceneRenderPlaceholder, Seq<char>)> {
    seq![
        (SceneRenderPlaceholder::Terrain, "assets/dreadstep/terrain.png"@),
        (SceneRenderPlaceholder::Player, "assets/dreadstep/player.png"@),
        (SceneRenderPlaceholder::Enemy, "assets/dreadstep/enemy.png"@),
        (SceneRenderPlaceholder::DeadActor, "assets/dreadstep/dead.png"@),
        (SceneRenderPlaceholder::GroundItem, "assets/dreadstep/ground-item.png"@),
        (SceneRenderPlaceholder::InventoryItem, "assets/dreadstep/inventory-item.png"@),
    ]
}

/// The error reported for an invalid asset path.
pub open spec fn invalid_asset_message(path: Seq<char>) -> Seq<char> {
    "invalid presentation asset path "@ + path
}

/// The first `k` showcase paths are valid.
pub open spec fn showcase_prefix_valid(k: int) -> bool {
    forall|m: int| 0 <= m < k ==> valid_asset_path(#[trigger] showcase_asset_paths()[m].1)
}

fn bind_placeholder(
    bindings: &mut Vec<(SceneRenderPlaceholder, PresentationAssetReference)>,
    family: SceneRenderPlaceholder,
    path: &str,
) -> (r: Result<(), String>)
    ensures
        r is Ok <==> valid_asset_path(path@),
        r is Ok ==> placeholder_binding_views(final(bindings)@) == placeholder_binding_views(
            old(bindings)@,
        ).push((family, path@)),
        r matches Err(e) ==> e@ == invalid_asset_message(path@),
{
    match PresentationAssetReference::new(path) {
        Some(reference) => {
            bindings.push((family, reference));
            proof {
                assert(placeholder_binding_views(bindings@) =~= placeholder_binding_views(
                    old(bindings)@,
                ).push((family, path@)));
            }
            Ok(())
        },
        None => {
            let mut e = String::from_str("invalid presentation asset path ");
            e.append(path);
            Err(e)
        },
    }
}

/// Builds the showcase manifest of placeholder images.
///
/// It succeeds exactly when every showcase path is valid, with the bindings of
/// [`showcase_asset_paths`]; otherwise it reports the first invalid path.
pub fn build_manifest() -> (r: Result<PresentationAssetManifest, String>)
    ensures
        r is Ok <==> showcase_prefix_valid(6),
        r matches Ok(m) ==> m@ == showcase_asset_paths(),
        r matches Err(e) ==> exists|k: int|
            0 <= k < 6 && showcase_prefix_valid(k) && !valid_asset_path(
                #[trigger] showcase_asset_paths()[k].1,
            ) && e@ == invalid_asset_message(showcase_asset_paths()[k].1),
{
    let ghost list = showcase_asset_paths();
    let mut bindings: Vec<(SceneRenderPlaceholder, PresentationAssetReference)> = Vec::new();
    if let Err(e) = bind_placeholder(
        &mut bindings,
        SceneRenderPlaceholder::Terrain,
        "assets/dreadstep/terrain.png",
    ) {
        assert(!valid_asset_path(list[0].1));
        return Err(e);
    }
    if let Err(e) = bind_placeholder(
        &mut bindings,
        SceneRenderPlaceholder::Player,
        "assets/dreadstep/player.png",
    ) {
        assert(!valid_asset_path(list[1].1) && showcase_prefix_valid(1));
        return Err(e);
    }
    if let Err(e) = bind_placeholder(
        &mut bindings,
        SceneRenderPlaceholder::Enemy,
        "assets/dreadstep/enemy.png",
    ) {
        assert(!valid_asset_path(list[2].1) && showcase_prefix_valid(2));
        return Err(e);
    }
    if let Err(e) = bind_placeholder(
        &mut bindings,
        SceneRenderPlaceholder::DeadActor,
        "assets/dreadstep/dead.png",
    ) {
        assert(!valid_asset_path(list[3].1) && showcase_prefix_valid(3));
        return Err(e);
    }
    if let Err(e) = bind_placeholder(
        &mut bindings,
        SceneRenderPlaceholder::GroundItem,
        "assets/dreadstep/ground-item.png",
    ) {
        assert(!valid_asset_path(list[4].1) && showcase_prefix_valid(4));
        return Err(e);
    }
    if let Err(e) = bind_placeholder(
        &mut bindings,
        SceneRenderPlaceholder::InventoryItem,
        "assets/dreadstep/inventory-item.png",
    ) {
        assert(!valid_asset_path(list[5].1) && showcase_prefix_valid(5));
        return Err(e);
    }
    proof {
        assert(placeholder_binding_views(bindings@) =~= list);
        assert(showcase_prefix_valid(6));
    }
    match PresentationAssetManifest::new(bindings) {
        Some(m) => Ok(m),
        None => {
            proof {
                assert(distinct_placeholders(list));
            }
            Err(String::from_str("asset manifest does not contain all six families"))
        },
    }
}

} // verus!
