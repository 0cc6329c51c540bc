//! The catalog of generations: what is installed for a profile, and which
//! files each generation needs on the partition.

use vstd::prelude::*;
use vstd::string::*;
use crate::decimal::{decimal, parse_usize, push_decimal};
use crate::error::BootError;
use crate::installer::systemd_boot::version::systemd::number_of;
use crate::pattern::{capture, pattern_capture};
use crate::text::{
    char_count, clone_opt_string, clone_strings, concat2, owned, replace_char,
    replace_char_spec, skip_chars, starts_with, take_chars,
};

verus! {

/// Where the store lies. A path below it starts with the hash of what it
/// holds.
pub open spec fn store_path_prefix() -> Seq<char> {
    "/nix/store/"@
}

/// The number of characters of a store hash.
pub const STORE_HASH_LEN: usize = 32;

/// The pattern that finds profile and index in the name of a generation
/// link.
pub open spec fn generation_pattern() -> Seq<char> {
    "/(?P<profile>[^-]+)-(?P<generation>\\d+)-link"@
}

/// One immutable build of the system.
#[derive(Debug, Default, PartialEq)]
pub struct Generation {
    /// The ordinal of the generation within its profile.
    pub idx: usize,
    /// The profile it belongs to; `None` for the system profile.
    pub profile: Option<String>,
    /// The resolved path of its root.
    pub path: String,
    /// The names of the files it needs on the partition.
    pub required_filenames: Vec<String>,
}

/// The mathematical value of a [`Generation`].
pub struct GenerationView {
    pub idx: usize,
    pub profile: Option<Seq<char>>,
    pub path: Seq<char>,
    pub required_filenames: Seq<Seq<char>>,
}

impl View for Generation {
    type V = GenerationView;

    open spec fn view(&self) -> GenerationView {
        GenerationView {
            idx: self.idx,
            profile: self.profile.deep_view(),
            path: self.path@,
            required_filenames: self.required_filenames.deep_view(),
        }
    }
}

impl DeepView for Generation {
    type V = GenerationView;

    open spec fn deep_view(&self) -> GenerationView {
        self@
    }
}

impl Clone for Generation {
    fn clone(&self) -> (r: Self)
        ensures
            r@ == self@,
    {
        Generation {
            idx: self.idx,
            profile: clone_opt_string(&self.profile),
            path: self.path.clone(),
            required_filenames: clone_strings(&self.required_filenames),
        }
    }
}

/// An independent copy of a list of generations.
pub fn clone_generations(v: &Vec<Generation>) -> (out: Vec<Generation>)
    ensures
        out.deep_view() == v.deep_view(),
{
    let mut out: Vec<Generation> = Vec::new();
    let mut i: usize = 0;
    while i < v.len()
        invariant
            i <= v.len(),
            out.deep_view() == v.deep_view().take(i as int),
        decreases v.len() - i,
    {
        let ghost before = out.deep_view();
        let g = v[i].clone();
        out.push(g);
        i += 1;
        assert(out.deep_view() =~= before.push(v@[i as int - 1]@));
        assert(out.deep_view() =~= v.deep_view().take(i as int));
    }
    assert(v.deep_view().take(v.len() as int) =~= v.deep_view());
    out
}

/// The generations that are kept: all of them without a limit, else the
/// last `limit` of them, in the order they came in.
pub open spec fn wanted_spec<T>(generations: Seq<T>, limit: Option<usize>) -> Seq<T> {
    match limit {
        Some(n) => if n >= generations.len() {
            generations
        } else {
            generations.skip(generations.len() - n)
        },
        None => generations,
    }
}

/// Keeps the newest `configuration_limit` generations of a catalog in
/// ascending order, or all of them where there is no limit.
pub fn wanted_generations(
    generations: Vec<Generation>,
    configuration_limit: Option<usize>,
) -> (r: Vec<Generation>)
    ensures
        r@ == wanted_spec(generations@, configuration_limit),
{
    match configuration_limit {
        Some(limit) => {
            let len = generations.len();
            if limit >= len {
                generations
            } else {
                let mut rest = generations;
                let kept = rest.split_off(len - limit);
                assert(kept@ =~= generations@.skip(len - limit));
                kept
            }
        },
        None => generations,
    }
}

/// With a limit, what is kept is a suffix of the catalog, of the limit's
/// length where the catalog has that many: the relative order stays, and
/// nothing older than a kept generation is kept in its place. Without a
/// limit the catalog is returned unchanged.
pub proof fn lemma_wanted_is_newest<T>(generations: Seq<T>, limit: Option<usize>)
    ensures
        limit is None ==> wanted_spec(generations, limit) == generations,
        limit is Some ==> {
            let kept = wanted_spec(generations, limit);
            let dropped = generations.len() - kept.len();
            &&& kept.len() == if limit->0 <= generations.len() {
                limit->0 as int
            } else {
                generations.len() as int
            }
            &&& forall|i: int| 0 <= i < kept.len() ==> kept[i] == generations[dropped + i]
        },
{
}

/// The directory link of a profile: the system profile where none is named.
pub open spec fn profile_path_spec(profile: Option<Seq<char>>) -> Seq<char> {
    match profile {
        Some(name) => "/nix/var/nix/profiles/system-profiles/"@ + name,
        None => "/nix/var/nix/profiles/system"@,
    }
}

/// The path under which the generations of `profile` are linked.
pub fn profile_path(profile: &Option<String>) -> (r: String)
    ensures
        r@ == profile_path_spec(profile.deep_view()),
{
    match profile {
        Some(name) => concat2("/nix/var/nix/profiles/system-profiles/", name.as_str()),
        None => owned("/nix/var/nix/profiles/system"),
    }
}

/// The pattern by which the links of a profile's generations are found.
pub fn generation_glob(profile: &Option<String>) -> (r: String)
    ensures
        r@ == profile_path_spec(profile.deep_view()) + "-*-link"@,
{
    let mut r = profile_path(profile);
    r.append("-*-link");
    r
}

/// A store path made flat: the part below the store with every separator
/// turned into a dash.
pub open spec fn flat_store_name(path: Seq<char>) -> Seq<char> {
    replace_char_spec(path.skip(store_path_prefix().len() as int), '/', '-')
}

/// The file name under which a store path is kept on the partition.
pub open spec fn efi_filename_spec(path: Seq<char>) -> Result<Seq<char>, BootError> {
    if store_path_prefix().is_prefix_of(path) {
        Ok(flat_store_name(path) + ".efi"@)
    } else {
        Err(BootError::NotAStorePath)
    }
}

/// Projects a resolved store path onto one flat file name with the
/// boot-image extension. A path outside the store is refused.
pub fn store_path_to_efi_filename(path: String) -> (r: Result<String, BootError>)
    ensures
        match r {
            Ok(name) => efi_filename_spec(path@) == Ok::<Seq<char>, BootError>(name@),
            Err(e) => efi_filename_spec(path@) == Err::<Seq<char>, BootError>(e),
        },
{
    if !starts_with(path.as_str(), "/nix/store/") {
        return Err(BootError::NotAStorePath);
    }
    let below = skip_chars(path.as_str(), char_count("/nix/store/"));
    let mut name = replace_char(below.as_str(), '/', '-');
    name.append(".efi");
    Ok(name)
}

/// The file name of a unified image: the store hash of the generation's
/// root, which stays the same whatever follows it in the path.
pub open spec fn unified_filename_spec(root: Seq<char>) -> Result<Seq<char>, BootError> {
    if store_path_prefix().is_prefix_of(root) && flat_store_name(root).len() >= STORE_HASH_LEN {
        Ok(flat_store_name(root).take(STORE_HASH_LEN as int) + ".efi"@)
    } else {
        Err(BootError::NotAStorePath)
    }
}

/// The file name of the unified image of the generation rooted at `root`.
/// A root outside the store, or too short to hold a hash, is refused.
pub fn unified_efi_filename(root: &str) -> (r: Result<String, BootError>)
    ensures
        match r {
            Ok(name) => unified_filename_spec(root@) == Ok::<Seq<char>, BootError>(name@),
            Err(e) => unified_filename_spec(root@) == Err::<Seq<char>, BootError>(e),
        },
{
    if !starts_with(root, "/nix/store/") {
        return Err(BootError::NotAStorePath);
    }
    let below = skip_chars(root, char_count("/nix/store/"));
    let flat = replace_char(below.as_str(), '/', '-');
    if char_count(flat.as_str()) < STORE_HASH_LEN {
        return Err(BootError::NotAStorePath);
    }
    let mut name = take_chars(flat.as_str(), STORE_HASH_LEN);
    name.append(".efi");
    Ok(name)
}

/// The name of the entry file of generation `idx` of `profile`.
pub open spec fn entry_filename_spec(profile: Option<Seq<char>>, idx: usize) -> Seq<char> {
    match profile {
        Some(name) => "nixos-"@ + name + "-generation-"@ + decimal(idx as nat) + ".conf"@,
        None => "nixos-generation-"@ + decimal(idx as nat) + ".conf"@,
    }
}

/// The name of the entry file of generation `idx` of `profile`.
pub fn entry_filename(profile: &Option<String>, idx: usize) -> (r: String)
    ensures
        r@ == entry_filename_spec(profile.deep_view(), idx),
{
    match profile {
        Some(name) => {
            let mut r = concat2("nixos-", name.as_str());
            r.append("-generation-");
            push_decimal(&mut r, idx);
            r.append(".conf");
            r
        },
        None => {
            let mut r = owned("nixos-generation-");
            push_decimal(&mut r, idx);
            r.append(".conf");
            r
        },
    }
}

/// A generation as it was found on disk: its link, and the resolved paths
/// of its root, kernel and initrd.
#[derive(Debug, Default, PartialEq)]
pub struct GenerationLink {
    /// The link as the profile directory names it.
    pub link: String,
    /// The resolved root of the generation.
    pub root: String,
    /// The resolved kernel.
    pub kernel: String,
    /// The resolved initrd.
    pub initrd: String,
}

/// The mathematical value of a [`GenerationLink`].
pub struct GenerationLinkView {
    pub link: Seq<char>,
    pub root: Seq<char>,
    pub kernel: Seq<char>,
    pub initrd: Seq<char>,
}

impl View for GenerationLink {
    type V = GenerationLinkView;

    open spec fn view(&self) -> GenerationLinkView {
        GenerationLinkView {
            link: self.link@,
            root: self.root@,
            kernel: self.kernel@,
            initrd: self.initrd@,
        }
    }
}

impl DeepView for GenerationLink {
    type V = GenerationLinkView;

    open spec fn deep_view(&self) -> GenerationLinkView {
        self@
    }
}

/// The files that a generation needs: one unified image or a kernel and an
/// initrd, and its entry file.
pub open spec fn required_filenames_spec(
    idx: usize,
    profile: Option<Seq<char>>,
    unified: bool,
    link: GenerationLinkView,
) -> Result<Seq<Seq<char>>, BootError> {
    if unified {
        match unified_filename_spec(link.root) {
            Ok(image) => Ok(seq![image, entry_filename_spec(profile, idx)]),
            Err(e) => Err(e),
        }
    } else {
        match efi_filename_spec(link.kernel) {
            Ok(kernel) => match efi_filename_spec(link.initrd) {
                Ok(initrd) => Ok(seq![kernel, initrd, entry_filename_spec(profile, idx)]),
                Err(e) => Err(e),
            },
            Err(e) => Err(e),
        }
    }
}

/// The generation with index `idx` that `link` stands for.
pub open spec fn generation_spec(
    idx: usize,
    profile: Option<Seq<char>>,
    unified: bool,
    link: GenerationLinkView,
) -> Result<GenerationView, BootError> {
    match required_filenames_spec(idx, profile, unified, link) {
        Ok(names) => Ok(
            GenerationView { idx, profile, path: link.root, required_filenames: names },
        ),
        Err(e) => Err(e),
    }
}

impl Generation {
    /// Describes the generation with index `idx` found at `link`, with the
    /// files it needs.
    pub fn from_link(idx: usize, profile: &Option<String>, unified: bool, link: &GenerationLink) -> (r:
        Result<Generation, BootError>)
        ensures
            match r {
                Ok(g) => generation_spec(idx, profile.deep_view(), unified, link@) == Ok::<
                    GenerationView,
                    BootError,
                >(g@),
                Err(e) => generation_spec(idx, profile.deep_view(), unified, link@) == Err::<
                    GenerationView,
                    BootError,
                >(e),
            },
    {
        let conf = entry_filename(profile, idx);
        let mut names: Vec<String> = Vec::new();
        if unified {
            match unified_efi_filename(link.root.as_str()) {
                Ok(image) => {
                    names.push(image);
                },
                Err(e) => {
                    return Err(e);
                },
            }
        } else {
            match store_path_to_efi_filename(link.kernel.clone()) {
                Ok(kernel) => {
                    names.push(kernel);
                },
                Err(e) => {
                    return Err(e);
                },
            }
            match store_path_to_efi_filename(link.initrd.clone()) {
                Ok(initrd) => {
                    names.push(initrd);
                },
                Err(e) => {
                    return Err(e);
                },
            }
        }
        names.push(conf);
        let g = Generation {
            idx,
            profile: clone_opt_string(profile),
            path: link.root.clone(),
            required_filenames: names,
        };
        proof {
            let want = required_filenames_spec(idx, profile.deep_view(), unified, link@);
            assert(want is Ok);
            assert(g.required_filenames.deep_view() =~= want->Ok_0);
        }
        Ok(g)
    }
}

/// The index that the name of a generation link carries, over the result of
/// the search.
pub open spec fn link_index_spec(link: Seq<char>) -> Result<usize, BootError> {
    match pattern_capture(generation_pattern(), false, false, link, "generation"@) {
        None => Err(BootError::BadPattern),
        Some(found) => index_of_capture_spec(found),
    }
}

/// The index that a search of a link's name found.
pub open spec fn index_of_capture_spec(found: Option<Seq<char>>) -> Result<usize, BootError> {
    match found {
        None => Err(BootError::NotAGeneration),
        Some(digits) => match number_of(digits) {
            Some(n) => Ok(n),
            None => Err(BootError::BadIndex),
        },
    }
}

/// Turns what a search of a link's name found into an index. A name
/// without one is no generation; digits that fit no machine word are
/// refused.
pub fn index_of_capture(found: Option<String>) -> (r: Result<usize, BootError>)
    ensures
        r == index_of_capture_spec(found.deep_view()),
{
    match found {
        None => Err(BootError::NotAGeneration),
        Some(digits) => match parse_usize(digits.as_str()) {
            Some(n) => Ok(n),
            None => Err(BootError::BadIndex),
        },
    }
}

/// Reads the index of a generation from the name of its link.
pub fn link_index(link: &str) -> (r: Result<usize, BootError>)
    ensures
        r == link_index_spec(link@),
{
    match capture("/(?P<profile>[^-]+)-(?P<generation>\\d+)-link", false, false, link, "generation") {
        Ok(found) => index_of_capture(found),
        Err(_) => Err(BootError::BadPattern),
    }
}

/// `sorted` with `g` put behind the last generation whose index is not
/// greater.
pub open spec fn insert_by_idx(sorted: Seq<GenerationView>, g: GenerationView) -> Seq<
    GenerationView,
>
    decreases sorted.len(),
{
    if sorted.len() == 0 {
        seq![g]
    } else if sorted.last().idx <= g.idx {
        sorted.push(g)
    } else {
        insert_by_idx(sorted.drop_last(), g).push(sorted.last())
    }
}

/// The generations in ascending order of index; those of equal index stay
/// in the order they came in.
pub open spec fn sort_by_idx(s: Seq<GenerationView>) -> Seq<GenerationView>
    decreases s.len(),
{
    if s.len() == 0 {
        s
    } else {
        insert_by_idx(sort_by_idx(s.drop_last()), s.last())
    }
}

/// Whether indices never fall along `s`.
pub open spec fn ascending(s: Seq<GenerationView>) -> bool {
    forall|i: int, j: int| 0 <= i < j < s.len() ==> s[i].idx <= s[j].idx
}

proof fn lemma_insert_at(sorted: Seq<GenerationView>, g: GenerationView, p: int)
    requires
        0 <= p <= sorted.len(),
        forall|j: int| p <= j < sorted.len() ==> sorted[j].idx > g.idx,
        p > 0 ==> sorted[p - 1].idx <= g.idx,
    ensures
        insert_by_idx(sorted, g) == sorted.insert(p, g),
    decreases sorted.len(),
{
    if sorted.len() == 0 {
        assert(sorted.insert(p, g) =~= seq![g]);
    } else if p == sorted.len() {
        assert(sorted.insert(p, g) =~= sorted.push(g));
    } else {
        lemma_insert_at(sorted.drop_last(), g, p);
        assert(sorted.insert(p, g) =~= sorted.drop_last().insert(p, g).push(sorted.last()));
    }
}

proof fn lemma_insert_keeps_order(sorted: Seq<GenerationView>, g: GenerationView)
    requires
        ascending(sorted),
    ensures
        ascending(insert_by_idx(sorted, g)),
        insert_by_idx(sorted, g).len() == sorted.len() + 1,
        insert_by_idx(sorted, g).to_multiset() == sorted.to_multiset().insert(g),
        forall|i: int|
            0 <= i < insert_by_idx(sorted, g).len() ==> (#[trigger] insert_by_idx(sorted, g)[i]
                == g || sorted.contains(insert_by_idx(sorted, g)[i])),
    decreases sorted.len(),
{
    broadcast use vstd::seq_lib::group_to_multiset_ensures;

    let out = insert_by_idx(sorted, g);
    if sorted.len() == 0 {
        assert(sorted =~= Seq::<GenerationView>::empty());
        assert(out =~= Seq::<GenerationView>::empty().push(g));
    } else if sorted.last().idx <= g.idx {
        assert forall|i: int| 0 <= i < out.len() implies (#[trigger] out[i] == g
            || sorted.contains(out[i])) by {
            if i < sorted.len() {
                assert(sorted[i] == out[i]);
            }
        }
    } else {
        let rest = sorted.drop_last();
        assert(ascending(rest));
        lemma_insert_keeps_order(rest, g);
        let inner = insert_by_idx(rest, g);
        assert(sorted =~= rest.push(sorted.last()));
        assert forall|i: int| 0 <= i < out.len() implies (#[trigger] out[i] == g
            || sorted.contains(out[i])) by {
            if i < inner.len() {
                assert(out[i] == inner[i]);
                if inner[i] != g {
                    assert(rest.contains(inner[i]));
                    let k = choose|k: int| 0 <= k < rest.len() && rest[k] == inner[i];
                    assert(sorted[k] == inner[i]);
                }
            } else {
                assert(out[i] == sorted[sorted.len() - 1]);
            }
        }
        assert forall|i: int, j: int| 0 <= i < j < out.len() implies out[i].idx
            <= out[j].idx by {
            if j == out.len() - 1 {
                assert(out[i] == inner[i]);
                if inner[i] != g {
                    assert(rest.contains(inner[i]));
                    let k = choose|k: int| 0 <= k < rest.len() && rest[k] == inner[i];
                    assert(sorted[k].idx <= sorted[sorted.len() - 1].idx);
                }
            } else {
                assert(out[i] == inner[i] && out[j] == inner[j]);
            }
        }
        assert(out.to_multiset() =~= sorted.to_multiset().insert(g));
    }
}

/// Sorting yields the same generations, each as often as before, in
/// ascending order of index.
pub proof fn lemma_sort_by_idx(s: Seq<GenerationView>)
    ensures
        ascending(sort_by_idx(s)),
        sort_by_idx(s).len() == s.len(),
        sort_by_idx(s).to_multiset() == s.to_multiset(),
    decreases s.len(),
{
    broadcast use vstd::seq_lib::group_to_multiset_ensures;

    if s.len() == 0 {
    } else {
        lemma_sort_by_idx(s.drop_last());
        lemma_insert_keeps_order(sort_by_idx(s.drop_last()), s.last());
        assert(s =~= s.drop_last().push(s.last()));
    }
}

/// Puts `g` into `sorted` behind the last generation whose index is not
/// greater.
fn insert_generation(sorted: &mut Vec<Generation>, g: Generation)
    ensures
        final(sorted).deep_view() == insert_by_idx(old(sorted).deep_view(), g@),
{
    let mut p: usize = sorted.len();
    while p > 0 && sorted[p - 1].idx > g.idx
        invariant
            p <= sorted.len(),
            sorted == old(sorted),
            forall|j: int| p <= j < sorted.len() ==> sorted@[j].idx > g.idx,
        decreases p,
    {
        p -= 1;
    }
    proof {
        lemma_insert_at(sorted.deep_view(), g@, p as int);
    }
    let ghost before = sorted.deep_view();
    let ghost gv = g@;
    sorted.insert(p, g);
    assert(sorted.deep_view() =~= before.insert(p as int, gv));
}

/// The generations that the links stand for, in the order of the links; the
/// first link that cannot be described decides the error.
pub open spec fn collect_spec(
    profile: Option<Seq<char>>,
    unified: bool,
    links: Seq<GenerationLinkView>,
) -> Result<Seq<GenerationView>, BootError>
    decreases links.len(),
{
    if links.len() == 0 {
        Ok(Seq::<GenerationView>::empty())
    } else {
        match collect_spec(profile, unified, links.drop_last()) {
            Err(e) => Err(e),
            Ok(before) => match link_index_spec(links.last().link) {
                Err(e) => Err(e),
                Ok(idx) => match generation_spec(idx, profile, unified, links.last()) {
                    Err(e) => Err(e),
                    Ok(g) => Ok(before.push(g)),
                },
            },
        }
    }
}

/// The catalog of a profile: every generation found, in ascending order of
/// index.
pub open spec fn catalog_spec(
    profile: Option<Seq<char>>,
    unified: bool,
    links: Seq<GenerationLinkView>,
) -> Result<Seq<GenerationView>, BootError> {
    match collect_spec(profile, unified, links) {
        Ok(found) => Ok(sort_by_idx(found)),
        Err(e) => Err(e),
    }
}

/// Builds the catalog of `profile` from the links found for it. One link
/// that cannot be described fails the whole catalog: a catalog is complete
/// or it is not there.
pub fn all_generations(profile: Option<String>, unified: bool, links: &Vec<GenerationLink>) -> (r:
    Result<Vec<Generation>, BootError>)
    ensures
        match r {
            Ok(gens) => catalog_spec(profile.deep_view(), unified, links.deep_view()) == Ok::<
                Seq<GenerationView>,
                BootError,
            >(gens.deep_view()),
            Err(e) => catalog_spec(profile.deep_view(), unified, links.deep_view()) == Err::<
                Seq<GenerationView>,
                BootError,
            >(e),
        },
{
    let mut generations: Vec<Generation> = Vec::new();
    let ghost mut found = Seq::<GenerationView>::empty();
    let mut i: usize = 0;
    assert(links.deep_view().take(0) =~= Seq::<GenerationLinkView>::empty());
    while i < links.len()
        invariant
            i <= links.len(),
            collect_spec(profile.deep_view(), unified, links.deep_view().take(i as int)) == Ok::<
                Seq<GenerationView>,
                BootError,
            >(found),
            generations.deep_view() == sort_by_idx(found),
        decreases links.len() - i,
    {
        let ghost upto = links.deep_view().take(i as int + 1);
        proof {
            assert(upto.drop_last() =~= links.deep_view().take(i as int));
            assert(upto.last() == links@[i as int]@);
            lemma_collect_error_stays(profile.deep_view(), unified, links.deep_view(), i as int + 1);
        }
        let idx = match link_index(links[i].link.as_str()) {
            Ok(idx) => idx,
            Err(e) => {
                return Err(e);
            },
        };
        let g = match Generation::from_link(idx, &profile, unified, &links[i]) {
            Ok(g) => g,
            Err(e) => {
                return Err(e);
            },
        };
        proof {
            let before = found;
            found = found.push(g@);
            assert(found.drop_last() =~= before);
            assert(found.last() == g@);
        }
        insert_generation(&mut generations, g);
        i += 1;
    }
    assert(links.deep_view().take(links.len() as int) =~= links.deep_view());
    Ok(generations)
}

/// Once a link has failed, the links behind it do not change the error.
proof fn lemma_collect_error_stays(
    profile: Option<Seq<char>>,
    unified: bool,
    links: Seq<GenerationLinkView>,
    n: int,
)
    requires
        0 <= n <= links.len(),
    ensures
        collect_spec(profile, unified, links.take(n)) is Err ==> collect_spec(
            profile,
            unified,
            links,
        ) == collect_spec(profile, unified, links.take(n)),
    decreases links.len() - n,
{
    if n == links.len() {
        assert(links.take(n) =~= links);
    } else if collect_spec(profile, unified, links.take(n)) is Err {
        assert(links.take(n + 1).drop_last() =~= links.take(n));
        lemma_collect_error_stays(profile, unified, links, n + 1);
    }
}

} // verus!
