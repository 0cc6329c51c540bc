//! The systemd-boot boot manager: its configuration file, the files that
//! the kept generations need, and what is pruned.

use vstd::prelude::*;
use vstd::string::*;
use crate::decimal::{decimal, push_decimal};
use crate::error::BootError;
use crate::installer::options::Args;
use crate::installer::util::{wanted_generations, wanted_spec, Generation, GenerationView};
use crate::pattern::{pattern_search, search};
use crate::text::{contains_text, join_path, join_path_spec};

pub mod exec;
pub mod plan;
pub mod script;
pub mod version;

verus! {

/// The pattern of the entry files that this crate manages: the whole name
/// is `nixos-`, a profile and a dash where the entry belongs to one,
/// `generation-`, an index, and `.conf`. An entry whose name is anything
/// else, a copy with something before or behind that form too, is somebody
/// else's and is left alone.
pub open spec fn entry_pattern() -> Seq<char> {
    "^nixos-(?:(?P<profile>[^-]+)-)?generation-(?P<generation>\\d+)\\.conf$"@
}

/// The text of the boot manager's configuration.
pub open spec fn loader_conf_spec(
    timeout: Option<usize>,
    idx: usize,
    editor: bool,
    console_mode: Seq<char>,
) -> Seq<char> {
    (match timeout {
        Some(t) => "timeout "@ + decimal(t as nat) + "\n"@,
        None => Seq::<char>::empty(),
    }) + "default nixos-generation-"@ + decimal(idx as nat) + ".conf\n"@ + (if editor {
        Seq::<char>::empty()
    } else {
        "editor 0\n"@
    }) + "console-mode "@ + console_mode + "\n"@
}

/// Renders the boot manager's configuration: the timeout where there is
/// one, the default entry, a line that switches the editor off where it is
/// not wanted, and the console mode.
pub fn create_loader_conf(timeout: Option<usize>, idx: usize, editor: bool, console_mode: &str) -> (r:
    Result<String, BootError>)
    ensures
        r is Ok,
        r->Ok_0@ == loader_conf_spec(timeout, idx, editor, console_mode@),
{
    let mut s = String::new();
    if let Some(timeout) = timeout {
        s.append("timeout ");
        push_decimal(&mut s, timeout);
        s.append("\n");
    }
    s.append("default nixos-generation-");
    push_decimal(&mut s, idx);
    s.append(".conf\n");
    if !editor {
        s.append("editor 0\n");
    }
    s.append("console-mode ");
    s.append(console_mode);
    s.append("\n");
    assert(s@ =~= loader_conf_spec(timeout, idx, editor, console_mode@));
    Ok(s)
}

/// The file names that `generations` need, generation after generation. A
/// name that two generations share occurs twice.
pub open spec fn required_filenames_spec(generations: Seq<GenerationView>) -> Seq<Seq<char>>
    decreases generations.len(),
{
    if generations.len() == 0 {
        Seq::<Seq<char>>::empty()
    } else {
        required_filenames_spec(generations.drop_last()) + generations.last().required_filenames
    }
}

/// Collects the file names that the kept generations need.
pub fn get_required_filenames(generations: Vec<Generation>) -> (r: Vec<String>)
    ensures
        r.deep_view() == required_filenames_spec(generations.deep_view()),
{
    let mut required_filenames: Vec<String> = Vec::new();
    let mut i: usize = 0;
    assert(generations.deep_view().take(0) =~= Seq::<GenerationView>::empty());
    while i < generations.len()
        invariant
            i <= generations.len(),
            required_filenames.deep_view() == required_filenames_spec(
                generations.deep_view().take(i as int),
            ),
        decreases generations.len() - i,
    {
        let ghost upto = generations.deep_view().take(i as int + 1);
        let ghost before = required_filenames.deep_view();
        assert(upto.drop_last() =~= generations.deep_view().take(i as int));
        assert(upto.last() == generations@[i as int]@);
        let names = &generations[i].required_filenames;
        let mut j: usize = 0;
        while j < names.len()
            invariant
                j <= names.len(),
                required_filenames.deep_view() == before + names.deep_view().take(j as int),
            decreases names.len() - j,
        {
            let ghost sofar = required_filenames.deep_view();
            required_filenames.push(names[j].clone());
            j += 1;
            assert(required_filenames.deep_view() =~= sofar.push(names@[j as int - 1]@));
            assert(required_filenames.deep_view() =~= before + names.deep_view().take(j as int));
        }
        assert(names.deep_view().take(names.len() as int) =~= names.deep_view());
        i += 1;
    }
    assert(generations.deep_view().take(generations.len() as int) =~= generations.deep_view());
    required_filenames
}

/// A name is required exactly where one of the generations requires it.
pub proof fn lemma_required_filenames(generations: Seq<GenerationView>, name: Seq<char>)
    ensures
        required_filenames_spec(generations).contains(name) <==> exists|i: int|
            0 <= i < generations.len() && #[trigger] generations[i].required_filenames.contains(
                name,
            ),
    decreases generations.len(),
{
    if generations.len() == 0 {
    } else {
        let rest = generations.drop_last();
        let last = generations.last();
        lemma_required_filenames(rest, name);
        let all = required_filenames_spec(generations);
        let before = required_filenames_spec(rest);
        if all.contains(name) {
            let k = choose|k: int| 0 <= k < all.len() && all[k] == name;
            if k < before.len() {
                assert(before[k] == name);
                let i = choose|i: int|
                    0 <= i < rest.len() && #[trigger] rest[i].required_filenames.contains(name);
                assert(generations[i].required_filenames.contains(name));
            } else {
                assert(last.required_filenames[k - before.len()] == name);
                assert(generations[generations.len() - 1].required_filenames.contains(name));
            }
        }
        if exists|i: int|
            0 <= i < generations.len() && #[trigger] generations[i].required_filenames.contains(
                name,
            ) {
            let i = choose|i: int|
                0 <= i < generations.len() && #[trigger] generations[i].required_filenames.contains(
                    name,
                );
            if i < rest.len() {
                assert(rest[i].required_filenames.contains(name));
                let k = choose|k: int| 0 <= k < before.len() && before[k] == name;
                assert(all[k] == name);
            } else {
                let k = choose|k: int|
                    0 <= k < last.required_filenames.len() && last.required_filenames[k] == name;
                assert(all[before.len() + k] == name);
            }
        }
    }
}

/// Whether the name of an entry file is one that this crate manages, over
/// the result of the search.
pub open spec fn is_managed_entry(name: Seq<char>) -> bool {
    pattern_search(entry_pattern(), name) == Some(true)
}

/// Whether an entry is deleted: only a managed one that no kept generation
/// requires.
pub open spec fn entry_is_stale_spec(managed: bool, name: Seq<char>, required: Seq<Seq<char>>) -> bool {
    managed && !required.contains(name)
}

/// Decides on one entry file, given whether its name is a managed one.
pub fn entry_is_stale(managed: bool, name: &str, required: &Vec<String>) -> (r: bool)
    ensures
        r == entry_is_stale_spec(managed, name@, required.deep_view()),
{
    managed && !contains_text(required, name)
}

/// The entries to delete, in the order they were listed; an error where the
/// pattern cannot be used.
pub open spec fn stale_entries_spec(names: Seq<Seq<char>>, required: Seq<Seq<char>>) -> Result<
    Seq<Seq<char>>,
    BootError,
>
    decreases names.len(),
{
    if names.len() == 0 {
        Ok(Seq::<Seq<char>>::empty())
    } else {
        match stale_entries_spec(names.drop_last(), required) {
            Err(e) => Err(e),
            Ok(before) => match pattern_search(entry_pattern(), names.last()) {
                None => Err(BootError::BadPattern),
                Some(managed) => if entry_is_stale_spec(managed, names.last(), required) {
                    Ok(before.push(names.last()))
                } else {
                    Ok(before)
                },
            },
        }
    }
}

proof fn lemma_stale_entries_error_stays(names: Seq<Seq<char>>, required: Seq<Seq<char>>, n: int)
    requires
        0 <= n <= names.len(),
    ensures
        stale_entries_spec(names.take(n), required) is Err ==> stale_entries_spec(names, required)
            == stale_entries_spec(names.take(n), required),
    decreases names.len() - n,
{
    if n == names.len() {
        assert(names.take(n) =~= names);
    } else if stale_entries_spec(names.take(n), required) is Err {
        assert(names.take(n + 1).drop_last() =~= names.take(n));
        lemma_stale_entries_error_stays(names, required, n + 1);
    }
}

/// Picks, among the names found in the entries directory, those to delete.
pub fn stale_entries(names: &Vec<String>, required: &Vec<String>) -> (r: Result<
    Vec<String>,
    BootError,
>)
    ensures
        match r {
            Ok(stale) => stale_entries_spec(names.deep_view(), required.deep_view()) == Ok::<
                Seq<Seq<char>>,
                BootError,
            >(stale.deep_view()),
            Err(e) => stale_entries_spec(names.deep_view(), required.deep_view()) == Err::<
                Seq<Seq<char>>,
                BootError,
            >(e),
        },
{
    let mut stale: Vec<String> = Vec::new();
    let mut i: usize = 0;
    assert(names.deep_view().take(0) =~= Seq::<Seq<char>>::empty());
    assert(stale.deep_view() =~= Seq::<Seq<char>>::empty());
    while i < names.len()
        invariant
            i <= names.len(),
            stale_entries_spec(names.deep_view().take(i as int), required.deep_view()) == Ok::<
                Seq<Seq<char>>,
                BootError,
            >(stale.deep_view()),
        decreases names.len() - i,
    {
        let ghost upto = names.deep_view().take(i as int + 1);
        let ghost before = stale.deep_view();
        proof {
            assert(upto.drop_last() =~= names.deep_view().take(i as int));
            assert(upto.last() == names@[i as int]@);
            lemma_stale_entries_error_stays(names.deep_view(), required.deep_view(), i as int + 1);
        }
        let managed = match search(
            "^nixos-(?:(?P<profile>[^-]+)-)?generation-(?P<generation>\\d+)\\.conf$",
            names[i].as_str(),
        ) {
            Ok(managed) => managed,
            Err(_) => {
                return Err(BootError::BadPattern);
            },
        };
        if entry_is_stale(managed, names[i].as_str(), required) {
            stale.push(names[i].clone());
            assert(stale.deep_view() =~= before.push(names@[i as int]@));
        }
        i += 1;
    }
    assert(names.deep_view().take(names.len() as int) =~= names.deep_view());
    Ok(stale)
}

/// The kernels, initrds and images to delete: those that no kept generation
/// requires, in the order they were listed.
pub open spec fn stale_artifacts_spec(names: Seq<Seq<char>>, required: Seq<Seq<char>>) -> Seq<
    Seq<char>,
>
    decreases names.len(),
{
    if names.len() == 0 {
        Seq::<Seq<char>>::empty()
    } else if required.contains(names.last()) {
        stale_artifacts_spec(names.drop_last(), required)
    } else {
        stale_artifacts_spec(names.drop_last(), required).push(names.last())
    }
}

/// Picks, among the names found in the directory of kernels and initrds,
/// those to delete.
pub fn stale_artifacts(names: &Vec<String>, required: &Vec<String>) -> (r: Vec<String>)
    ensures
        r.deep_view() == stale_artifacts_spec(names.deep_view(), required.deep_view()),
{
    let mut stale: Vec<String> = Vec::new();
    let mut i: usize = 0;
    assert(names.deep_view().take(0) =~= Seq::<Seq<char>>::empty());
    while i < names.len()
        invariant
            i <= names.len(),
            stale.deep_view() == stale_artifacts_spec(
                names.deep_view().take(i as int),
                required.deep_view(),
            ),
        decreases names.len() - i,
    {
        let ghost upto = names.deep_view().take(i as int + 1);
        let ghost before = stale.deep_view();
        assert(upto.drop_last() =~= names.deep_view().take(i as int));
        assert(upto.last() == names@[i as int]@);
        if !contains_text(required, names[i].as_str()) {
            stale.push(names[i].clone());
            assert(stale.deep_view() =~= before.push(names@[i as int]@));
        }
        i += 1;
    }
    assert(names.deep_view().take(names.len() as int) =~= names.deep_view());
    stale
}

/// Pruning leaves alone what it does not manage: whatever the kept
/// generations are, every entry that is deleted was listed, has a managed
/// name and is required by none of them.
pub proof fn lemma_prune_respects_unmanaged(names: Seq<Seq<char>>, required: Seq<Seq<char>>)
    requires
        stale_entries_spec(names, required) is Ok,
    ensures
        forall|i: int|
            0 <= i < stale_entries_spec(names, required)->Ok_0.len() ==> {
                let name = #[trigger] stale_entries_spec(names, required)->Ok_0[i];
                &&& names.contains(name)
                &&& is_managed_entry(name)
                &&& !required.contains(name)
            },
    decreases names.len(),
{
    if names.len() > 0 {
        let rest = names.drop_last();
        lemma_prune_respects_unmanaged(rest, required);
        let out = stale_entries_spec(names, required)->Ok_0;
        let before = stale_entries_spec(rest, required)->Ok_0;
        assert forall|i: int| 0 <= i < out.len() implies {
            let name = #[trigger] out[i];
            &&& names.contains(name)
            &&& is_managed_entry(name)
            &&& !required.contains(name)
        } by {
            if i < before.len() {
                assert(out[i] == before[i]);
                let k = choose|k: int| 0 <= k < rest.len() && rest[k] == before[i];
                assert(names[k] == before[i]);
            } else {
                assert(names[names.len() - 1] == out[i]);
            }
        }
    }
}

/// A file that a kept generation requires is never deleted, entry or not.
pub proof fn lemma_prune_keeps_required(names: Seq<Seq<char>>, required: Seq<Seq<char>>)
    ensures
        forall|i: int|
            0 <= i < stale_artifacts_spec(names, required).len() ==> {
                let name = #[trigger] stale_artifacts_spec(names, required)[i];
                names.contains(name) && !required.contains(name)
            },
    decreases names.len(),
{
    if names.len() > 0 {
        let rest = names.drop_last();
        lemma_prune_keeps_required(rest, required);
        let out = stale_artifacts_spec(names, required);
        let before = stale_artifacts_spec(rest, required);
        assert forall|i: int| 0 <= i < out.len() implies {
            let name = #[trigger] out[i];
            names.contains(name) && !required.contains(name)
        } by {
            if i < before.len() {
                assert(out[i] == before[i]);
                let k = choose|k: int| 0 <= k < rest.len() && rest[k] == before[i];
                assert(names[k] == before[i]);
            } else {
                assert(names[names.len() - 1] == out[i]);
            }
        }
    }
}

/// A file is deleted only where no kept generation requires it: whatever is
/// listed, a name that one of the kept generations requires is among neither
/// the entries nor the kernels, initrds and images that are deleted.
pub proof fn lemma_kept_generations_keep_their_files(
    generations: Seq<GenerationView>,
    names: Seq<Seq<char>>,
    i: int,
    name: Seq<char>,
)
    requires
        0 <= i < generations.len(),
        generations[i].required_filenames.contains(name),
    ensures
        !stale_artifacts_spec(names, required_filenames_spec(generations)).contains(name),
        stale_entries_spec(names, required_filenames_spec(generations)) is Ok ==> !stale_entries_spec(
            names,
            required_filenames_spec(generations),
        )->Ok_0.contains(name),
{
    let required = required_filenames_spec(generations);
    lemma_required_filenames(generations, name);
    assert(required.contains(name));
    lemma_prune_keeps_required(names, required);
    let old = stale_artifacts_spec(names, required);
    if old.contains(name) {
        let k = choose|k: int| 0 <= k < old.len() && old[k] == name;
        assert(!required.contains(old[k]));
    }
    if stale_entries_spec(names, required) is Ok {
        lemma_prune_respects_unmanaged(names, required);
        let stale = stale_entries_spec(names, required)->Ok_0;
        if stale.contains(name) {
            let k = choose|k: int| 0 <= k < stale.len() && stale[k] == name;
            assert(!required.contains(stale[k]));
        }
    }
}

/// The directory of entry files below `root`.
pub fn loader_entries_dir(root: &str) -> (r: String)
    ensures
        r@ == join_path_spec(root@, "loader/entries"@),
{
    join_path(root, "loader/entries")
}

/// The directory of kernels, initrds and images below `root`.
pub fn efi_nixos_dir(root: &str) -> (r: String)
    ensures
        r@ == join_path_spec(root@, "EFI/nixos"@),
{
    join_path(root, "EFI/nixos")
}

/// What an installation works with once the arguments have been checked:
/// the tool, and the generations that are kept.
#[derive(Debug)]
pub struct Installation {
    pub bootctl: String,
    pub wanted_generations: Vec<Generation>,
}

/// Checks the arguments and limits the catalog. Without a partition there is
/// nothing to do, and without the tool nothing can be done; both are refused
/// before anything is touched.
pub fn install(args: &Args, system_generations: Vec<Generation>) -> (r: Result<
    Installation,
    BootError,
>)
    ensures
        args.esp.len() == 0 ==> r == Err::<Installation, BootError>(BootError::NoEsp),
        args.esp.len() > 0 && args.bootctl is None ==> r == Err::<Installation, BootError>(
            BootError::NoBootctl,
        ),
        args.esp.len() > 0 && args.bootctl is Some ==> r is Ok && r->Ok_0.bootctl@
            == args.bootctl->0@ && r->Ok_0.wanted_generations@ == wanted_spec(
            system_generations@,
            args.configuration_limit,
        ),
{
    if args.esp.len() == 0 {
        return Err(BootError::NoEsp);
    }
    let bootctl = match &args.bootctl {
        Some(bootctl) => bootctl.clone(),
        None => {
            return Err(BootError::NoBootctl);
        },
    };
    let wanted = wanted_generations(system_generations, args.configuration_limit);
    Ok(Installation { bootctl, wanted_generations: wanted })
}

} // verus!
