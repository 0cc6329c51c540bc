//! Entries for systemd-boot: the text of each entry file, where it is
//! written, and the images that it refers to.

use vstd::prelude::*;
use vstd::string::*;
use super::bootable::{Bootable, BootableToplevel, BootableToplevelView, EfiProgram};
use crate::bootspec::SpecialisationName;
use crate::decimal::{decimal, push_decimal};
use crate::error::BootError;
use crate::text::{
    char_count, concat2, concat3, owned, replace_char, replace_char_spec, strip_prefix,
    take_chars, trim, trim_spec,
};

pub mod entry;

verus! {

/// The directory below which everything is generated.
pub open spec fn root_spec() -> Seq<char> {
    "systemd-boot-entries"@
}

/// The directory below which everything is generated.
pub fn root() -> (r: String)
    ensures
        r@ == root_spec(),
{
    owned("systemd-boot-entries")
}

/// A path in the store.
#[derive(Default, Debug)]
pub struct StorePath(pub String);

/// A path on the partition.
#[derive(Default, Debug)]
pub struct EspPath(pub String);

/// What one entry consists of.
#[derive(Default, Debug, PartialEq)]
pub struct Contents {
    /// The text of the entry file.
    pub conf: String,
    /// The kernel in the store.
    pub kernel_src: Option<String>,
    /// Where the kernel goes.
    pub kernel_dest: Option<String>,
    /// The initrd in the store.
    pub initrd_src: Option<String>,
    /// Where the initrd goes.
    pub initrd_dest: Option<String>,
    /// Where the unified image goes.
    pub unified_dest: Option<String>,
}

/// The mathematical value of a [`Contents`].
pub struct ContentsView {
    pub conf: Seq<char>,
    pub kernel_src: Option<Seq<char>>,
    pub kernel_dest: Option<Seq<char>>,
    pub initrd_src: Option<Seq<char>>,
    pub initrd_dest: Option<Seq<char>>,
    pub unified_dest: Option<Seq<char>>,
}

impl View for Contents {
    type V = ContentsView;

    open spec fn view(&self) -> ContentsView {
        ContentsView {
            conf: self.conf@,
            kernel_src: self.kernel_src.deep_view(),
            kernel_dest: self.kernel_dest.deep_view(),
            initrd_src: self.initrd_src.deep_view(),
            initrd_dest: self.initrd_dest.deep_view(),
            unified_dest: self.unified_dest.deep_view(),
        }
    }
}

impl DeepView for Contents {
    type V = ContentsView;

    open spec fn deep_view(&self) -> ContentsView {
        self@
    }
}

/// A path without the store in front of it.
pub open spec fn below_store(path: Seq<char>) -> Seq<char> {
    if "/nix/store/"@.is_prefix_of(path) {
        path.skip("/nix/store/"@.len() as int)
    } else {
        path
    }
}

/// The path, seen from the partition, of the image made from the store
/// path `path`.
pub open spec fn image_path_spec(path: Seq<char>) -> Seq<char> {
    "/efi/nixos/"@ + replace_char_spec(below_store(path), '/', '-') + ".efi"@
}

/// The path, seen from the partition, of the unified image of the toplevel
/// `toplevel`: named by its store hash. None where the toplevel is too
/// short to hold a hash.
pub open spec fn unified_path_spec(toplevel: Seq<char>) -> Option<Seq<char>> {
    if below_store(toplevel).len() >= 32 {
        Some("/efi/nixos/"@ + below_store(toplevel).take(32) + ".efi"@)
    } else {
        None
    }
}

fn strip_store(path: &str) -> (r: String)
    ensures
        r@ == below_store(path@),
{
    match strip_prefix(path, "/nix/store/") {
        Some(rest) => rest,
        None => owned(path),
    }
}

/// The path, seen from the partition, of the image made from `path`.
pub fn image_path(path: &str) -> (r: String)
    ensures
        r@ == image_path_spec(path@),
{
    let below = strip_store(path);
    let flat = replace_char(below.as_str(), '/', '-');
    concat3("/efi/nixos/", flat.as_str(), ".efi")
}

/// The path, seen from the partition, of the unified image of `toplevel`.
pub fn unified_path(toplevel: &str) -> (r: Option<String>)
    ensures
        r.deep_view() == unified_path_spec(toplevel@),
{
    let below = strip_store(toplevel);
    if char_count(below.as_str()) < 32 {
        return None;
    }
    let hash = take_chars(below.as_str(), 32);
    Some(concat3("/efi/nixos/", hash.as_str(), ".efi"))
}

/// The path of the entry file of a generation, or of one of its
/// specialisations.
pub open spec fn conf_path_spec(
    profile: Option<Seq<char>>,
    specialisation: Option<Seq<char>>,
    generation: usize,
) -> Seq<char> {
    root_spec() + "/loader/entries/nixos"@ + (match profile {
        Some(name) => "-"@ + name,
        None => Seq::<char>::empty(),
    }) + "-generation-"@ + decimal(generation as nat) + (match specialisation {
        Some(name) => "-"@ + name,
        None => Seq::<char>::empty(),
    }) + ".conf"@
}

/// The path of the entry file: the profile is named where it is not the
/// system profile, and the specialisation for a specialisation, so that no
/// two entries share a file.
pub fn conf_path(
    profile: &Option<String>,
    specialisation: &Option<SpecialisationName>,
    generation: usize,
) -> (r: String)
    ensures
        r@ == conf_path_spec(profile.deep_view(), specialisation.deep_view(), generation),
{
    let mut r = owned("systemd-boot-entries");
    r.append("/loader/entries/nixos");
    if let Some(name) = profile {
        r.append("-");
        r.append(name.as_str());
    }
    r.append("-generation-");
    push_decimal(&mut r, generation);
    if let Some(name) = specialisation {
        r.append("-");
        r.append(name.0.as_str());
    }
    r.append(".conf");
    assert(r@ =~= conf_path_spec(profile.deep_view(), specialisation.deep_view(), generation));
    r
}

/// The text of the entry of a toplevel that boots from kernel and initrd.
/// It ends in an empty line, so that entries compare byte for byte.
pub open spec fn linux_conf_spec(
    t: BootableToplevelView,
    machine_id: Seq<char>,
    version: Seq<char>,
) -> Seq<char> {
    "title "@ + t.title() + "\nversion Generation "@ + decimal(t.generation_index as nat) + " "@
        + version + "\nlinux "@ + image_path_spec(t.kernel) + "\ninitrd "@ + image_path_spec(
        t.initrd,
    ) + "\noptions "@ + t.command_line() + "\nmachine-id "@ + machine_id + "\n\n"@
}

/// The text of the entry of a toplevel that boots from the unified image
/// at `unified`.
pub open spec fn efi_conf_spec(
    t: BootableToplevelView,
    unified: Seq<char>,
    machine_id: Seq<char>,
    version: Seq<char>,
) -> Seq<char> {
    "title "@ + t.title() + "\nversion Generation "@ + decimal(t.generation_index as nat) + " "@
        + version + "\nefi "@ + unified + "\nmachine-id "@ + machine_id + "\n\n"@
}

/// The entry of a toplevel that boots from kernel and initrd: its file and
/// what it consists of.
pub open spec fn linux_entry_spec(
    t: BootableToplevelView,
    machine_id: Seq<char>,
    version: Seq<char>,
) -> (Seq<char>, ContentsView) {
    (
        conf_path_spec(t.profile_name, t.specialisation_name, t.generation_index),
        ContentsView {
            conf: linux_conf_spec(t, machine_id, version),
            kernel_src: Some(t.kernel),
            kernel_dest: Some(root_spec() + "/"@ + image_path_spec(t.kernel)),
            initrd_src: Some(t.initrd),
            initrd_dest: Some(root_spec() + "/"@ + image_path_spec(t.initrd)),
            unified_dest: None,
        },
    )
}

/// The entry of a toplevel that boots from a unified image; none where the
/// toplevel is too short to hold a store hash.
pub open spec fn efi_entry_spec(
    t: BootableToplevelView,
    machine_id: Seq<char>,
    version: Seq<char>,
) -> Option<(Seq<char>, ContentsView)> {
    match unified_path_spec(t.toplevel) {
        Some(unified) => Some(
            (
                conf_path_spec(t.profile_name, t.specialisation_name, t.generation_index),
                ContentsView {
                    conf: efi_conf_spec(t, unified, machine_id, version),
                    kernel_src: None,
                    kernel_dest: None,
                    initrd_src: None,
                    initrd_dest: None,
                    unified_dest: Some(root_spec() + "/"@ + unified),
                },
            ),
        ),
        None => None,
    }
}

/// Makes the entry of a toplevel that boots from kernel and initrd, with
/// the version line given.
pub fn linux_entry(toplevel: &BootableToplevel, machine_id: &str, version: &str) -> (r: (
    String,
    Contents,
))
    ensures
        r.0@ == linux_entry_spec(toplevel@, machine_id@, version@).0,
        r.1@ == linux_entry_spec(toplevel@, machine_id@, version@).1,
{
    let linux = image_path(toplevel.kernel.as_str());
    let initrd = image_path(toplevel.initrd.as_str());
    let title = toplevel.title();
    let options = toplevel.command_line();
    let mut data = concat2("title ", title.as_str());
    data.append("\nversion Generation ");
    push_decimal(&mut data, toplevel.generation_index);
    data.append(" ");
    data.append(version);
    data.append("\nlinux ");
    data.append(linux.as_str());
    data.append("\ninitrd ");
    data.append(initrd.as_str());
    data.append("\noptions ");
    data.append(options.as_str());
    data.append("\nmachine-id ");
    data.append(machine_id);
    data.append("\n\n");
    assert(data@ =~= linux_conf_spec(toplevel@, machine_id@, version@));
    let path = conf_path(
        &toplevel.profile_name,
        &toplevel.specialisation_name,
        toplevel.generation_index,
    );
    let kernel_dest = concat3("systemd-boot-entries", "/", linux.as_str());
    let initrd_dest = concat3("systemd-boot-entries", "/", initrd.as_str());
    (
        path,
        Contents {
            conf: data,
            kernel_src: Some(toplevel.kernel.clone()),
            kernel_dest: Some(kernel_dest),
            initrd_src: Some(toplevel.initrd.clone()),
            initrd_dest: Some(initrd_dest),
            unified_dest: None,
        },
    )
}

/// Makes the entry of a toplevel that boots from a unified image, with the
/// version line given. A toplevel that is too short to hold a store hash is
/// refused.
pub fn efi_entry(efi: &EfiProgram, machine_id: &str, version: &str) -> (r: Result<
    (String, Contents),
    BootError,
>)
    ensures
        match r {
            Ok(entry) => efi_entry_spec(efi.source@, machine_id@, version@) == Some(
                (entry.0@, entry.1@),
            ),
            Err(e) => e == BootError::NotAStorePath && efi_entry_spec(
                efi.source@,
                machine_id@,
                version@,
            ) is None,
        },
{
    let unified = match unified_path(efi.source.toplevel.0.as_str()) {
        Some(unified) => unified,
        None => {
            return Err(BootError::NotAStorePath);
        },
    };
    let title = efi.source.title();
    let mut data = concat2("title ", title.as_str());
    data.append("\nversion Generation ");
    push_decimal(&mut data, efi.source.generation_index);
    data.append(" ");
    data.append(version);
    data.append("\nefi ");
    data.append(unified.as_str());
    data.append("\nmachine-id ");
    data.append(machine_id);
    data.append("\n\n");
    assert(data@ =~= efi_conf_spec(efi.source@, unified@, machine_id@, version@));
    let path = conf_path(
        &efi.source.profile_name,
        &efi.source.specialisation_name,
        efi.source.generation_index,
    );
    let unified_dest = concat3("systemd-boot-entries", "/", unified.as_str());
    Ok(
        (
            path,
            Contents {
                conf: data,
                kernel_src: None,
                kernel_dest: None,
                initrd_src: None,
                initrd_dest: None,
                unified_dest: Some(unified_dest),
            },
        ),
    )
}

/// Makes the entry of a toplevel that boots from kernel and initrd and whose
/// root was last changed at the second `ctime`. The entry is the entry that
/// `linux_entry` makes for the version line of some date; which date, and
/// whether the second has one, is for the calendar to say, and a second
/// without a date is the one error.
pub fn linux_entry_impl(toplevel: &BootableToplevel, machine_id: &str, ctime: i64) -> (r: Result<
    (String, Contents),
    BootError,
>)
    ensures
        match r {
            Ok(entry) => exists|date: Seq<char>|
                (entry.0@, entry.1@) == linux_entry_spec(
                    toplevel@,
                    machine_id@,
                    #[trigger] toplevel@.version(date),
                ),
            Err(e) => e == BootError::BadTimestamp,
        },
{
    let version = match toplevel.version(ctime) {
        Ok(version) => version,
        Err(e) => {
            return Err(e);
        },
    };
    let entry = linux_entry(toplevel, machine_id, version.as_str());
    proof {
        let date = choose|date: Seq<char>| version@ == toplevel@.version(date);
        assert((entry.0@, entry.1@) == linux_entry_spec(
            toplevel@,
            machine_id@,
            toplevel@.version(date),
        ));
    }
    Ok(entry)
}

/// Makes the entry of a toplevel that boots from a unified image and whose
/// root was last changed at the second `ctime`. The image is named first: a
/// toplevel that is too short to hold a store hash is refused whatever the
/// second, and no other toplevel is refused on that ground. Past that, the
/// entry is the entry for the version line of some date, and a second
/// without a date is the one error.
pub fn efi_entry_impl(efi: &EfiProgram, machine_id: &str, ctime: i64) -> (r: Result<
    (String, Contents),
    BootError,
>)
    ensures
        unified_path_spec(efi.source@.toplevel) is None <==> r == Err::<
            (String, Contents),
            BootError,
        >(BootError::NotAStorePath),
        match r {
            Ok(entry) => exists|date: Seq<char>|
                Some((entry.0@, entry.1@)) == efi_entry_spec(
                    efi.source@,
                    machine_id@,
                    #[trigger] efi.source@.version(date),
                ),
            Err(e) => e == BootError::NotAStorePath || e == BootError::BadTimestamp,
        },
{
    if unified_path(efi.source.toplevel.0.as_str()).is_none() {
        return Err(BootError::NotAStorePath);
    }
    let version = match efi.source.version(ctime) {
        Ok(version) => version,
        Err(e) => {
            return Err(e);
        },
    };
    match efi_entry(efi, machine_id, version.as_str()) {
        Ok(entry) => {
            proof {
                let date = choose|date: Seq<char>| version@ == efi.source@.version(date);
                assert(Some((entry.0@, entry.1@)) == efi_entry_spec(
                    efi.source@,
                    machine_id@,
                    efi.source@.version(date),
                ));
            }
            Ok(entry)
        },
        Err(e) => Err(e),
    }
}

/// The machine identifier: what the file or the tool gave, without the
/// white space around it.
pub fn get_machine_id(raw: &str) -> (r: String)
    ensures
        r@ == trim_spec(raw@),
{
    trim(raw)
}

/// One thing to do to bring the generated tree about.
#[derive(Debug, PartialEq)]
#[allow(inconsistent_fields)]
pub enum GenerateOp {
    /// Make a directory and those above it.
    CreateDirs { path: String },
    /// Write an entry file.
    WriteFile { path: String, contents: String },
    /// Build the unified image of the toplevel at `toplevel`, with the
    /// kernel command line given, at `outpath`.
    BuildImage {
        ukify: String,
        stub: String,
        toplevel: String,
        outpath: String,
        command_line: String,
    },
    /// Link `dest` to `src` unless `dest` is there already.
    LinkIfAbsent { src: String, dest: String },
}

/// The mathematical value of a [`GenerateOp`].
#[allow(inconsistent_fields)]
pub enum GenerateOpView {
    CreateDirs { path: Seq<char> },
    WriteFile { path: Seq<char>, contents: Seq<char> },
    BuildImage {
        ukify: Seq<char>,
        stub: Seq<char>,
        toplevel: Seq<char>,
        outpath: Seq<char>,
        command_line: Seq<char>,
    },
    LinkIfAbsent { src: Seq<char>, dest: Seq<char> },
}

impl View for GenerateOp {
    type V = GenerateOpView;

    open spec fn view(&self) -> GenerateOpView {
        match self {
            GenerateOp::CreateDirs { path } => GenerateOpView::CreateDirs { path: path@ },
            GenerateOp::WriteFile { path, contents } => GenerateOpView::WriteFile {
                path: path@,
                contents: contents@,
            },
            GenerateOp::BuildImage { ukify, stub, toplevel, outpath, command_line } =>
                GenerateOpView::BuildImage {
                    ukify: ukify@,
                    stub: stub@,
                    toplevel: toplevel@,
                    outpath: outpath@,
                    command_line: command_line@,
                },
            GenerateOp::LinkIfAbsent { src, dest } => GenerateOpView::LinkIfAbsent {
                src: src@,
                dest: dest@,
            },
        }
    }
}

impl DeepView for GenerateOp {
    type V = GenerateOpView;

    open spec fn deep_view(&self) -> GenerateOpView {
        self@
    }
}

/// A bootable with the version line of its entry.
#[derive(Debug)]
pub struct Versioned {
    pub bootable: Bootable,
    pub version: String,
}

/// What is done for one bootable.
pub open spec fn bootable_ops_spec(
    item: Versioned,
    ukify: Option<Seq<char>>,
    stub: Option<Seq<char>>,
    machine_id: Seq<char>,
) -> Result<Seq<GenerateOpView>, BootError> {
    match item.bootable {
        Bootable::Efi(efi) => match efi_entry_spec(efi.source@, machine_id, item.version@) {
            None => Err(BootError::NotAStorePath),
            Some(entry) => if ukify is Some && stub is Some {
                Ok(
                    seq![
                        GenerateOpView::WriteFile { path: entry.0, contents: entry.1.conf },
                        GenerateOpView::BuildImage {
                            ukify: ukify->0,
                            stub: stub->0,
                            toplevel: efi.source@.toplevel,
                            outpath: entry.1.unified_dest->0,
                            command_line: efi.source@.command_line(),
                        },
                    ],
                )
            } else {
                Err(BootError::NoImageBuilder)
            },
        },
        Bootable::Linux(toplevel) => {
            let entry = linux_entry_spec(toplevel@, machine_id, item.version@);
            Ok(
                seq![
                    GenerateOpView::WriteFile { path: entry.0, contents: entry.1.conf },
                    GenerateOpView::LinkIfAbsent {
                        src: entry.1.kernel_src->0,
                        dest: entry.1.kernel_dest->0,
                    },
                    GenerateOpView::LinkIfAbsent {
                        src: entry.1.initrd_src->0,
                        dest: entry.1.initrd_dest->0,
                    },
                ],
            )
        },
    }
}

/// What is done for the bootables, one after the other; the first that
/// cannot be generated decides the error.
pub open spec fn generate_ops_spec(
    items: Seq<Versioned>,
    ukify: Option<Seq<char>>,
    stub: Option<Seq<char>>,
    machine_id: Seq<char>,
) -> Result<Seq<GenerateOpView>, BootError>
    decreases items.len(),
{
    if items.len() == 0 {
        Ok(Seq::<GenerateOpView>::empty())
    } else {
        match generate_ops_spec(items.drop_last(), ukify, stub, machine_id) {
            Err(e) => Err(e),
            Ok(before) => match bootable_ops_spec(items.last(), ukify, stub, machine_id) {
                Err(e) => Err(e),
                Ok(ops) => Ok(before + ops),
            },
        }
    }
}

/// Everything that `generate` does: the two directories, then the
/// bootables.
pub open spec fn generate_spec(
    items: Seq<Versioned>,
    ukify: Option<Seq<char>>,
    stub: Option<Seq<char>>,
    machine_id: Seq<char>,
) -> Result<Seq<GenerateOpView>, BootError> {
    match generate_ops_spec(items, ukify, stub, machine_id) {
        Err(e) => Err(e),
        Ok(ops) => Ok(
            seq![
                GenerateOpView::CreateDirs { path: root_spec() + "/efi/nixos"@ },
                GenerateOpView::CreateDirs { path: root_spec() + "/loader/entries"@ },
            ] + ops,
        ),
    }
}

proof fn lemma_generate_error_stays(
    items: Seq<Versioned>,
    ukify: Option<Seq<char>>,
    stub: Option<Seq<char>>,
    machine_id: Seq<char>,
    n: int,
)
    requires
        0 <= n <= items.len(),
    ensures
        generate_ops_spec(items.take(n), ukify, stub, machine_id) is Err ==> generate_ops_spec(
            items,
            ukify,
            stub,
            machine_id,
        ) == generate_ops_spec(items.take(n), ukify, stub, machine_id),
    decreases items.len() - n,
{
    if n == items.len() {
        assert(items.take(n) =~= items);
    } else if generate_ops_spec(items.take(n), ukify, stub, machine_id) is Err {
        assert(items.take(n + 1).drop_last() =~= items.take(n));
        lemma_generate_error_stays(items, ukify, stub, machine_id, n + 1);
    }
}

/// Decides what is written, built and linked to generate the entries of
/// `bootables`. Nothing can be built without the image builder and its
/// stub: a unified image without them is refused.
pub fn generate(
    bootables: &Vec<Versioned>,
    ukify: &Option<String>,
    systemd_efi_stub: &Option<String>,
    machine_id: &str,
) -> (r: Result<Vec<GenerateOp>, BootError>)
    ensures
        match r {
            Ok(ops) => generate_spec(
                bootables@,
                ukify.deep_view(),
                systemd_efi_stub.deep_view(),
                machine_id@,
            ) == Ok::<Seq<GenerateOpView>, BootError>(ops.deep_view()),
            Err(e) => generate_spec(
                bootables@,
                ukify.deep_view(),
                systemd_efi_stub.deep_view(),
                machine_id@,
            ) == Err::<Seq<GenerateOpView>, BootError>(e),
        },
{
    let ghost u = ukify.deep_view();
    let ghost s = systemd_efi_stub.deep_view();
    let mut ops: Vec<GenerateOp> = Vec::new();
    ops.push(GenerateOp::CreateDirs { path: concat2("systemd-boot-entries", "/efi/nixos") });
    ops.push(GenerateOp::CreateDirs { path: concat2("systemd-boot-entries", "/loader/entries") });
    let ghost head = ops.deep_view();
    assert(head =~= seq![
        GenerateOpView::CreateDirs { path: root_spec() + "/efi/nixos"@ },
        GenerateOpView::CreateDirs { path: root_spec() + "/loader/entries"@ },
    ]);
    let mut i: usize = 0;
    assert(bootables@.take(0) =~= Seq::<Versioned>::empty());
    assert(ops.deep_view() =~= head + Seq::<GenerateOpView>::empty());
    while i < bootables.len()
        invariant
            i <= bootables.len(),
            u == ukify.deep_view(),
            s == systemd_efi_stub.deep_view(),
            generate_ops_spec(bootables@.take(i as int), u, s, machine_id@) is Ok,
            ops.deep_view() == head + generate_ops_spec(
                bootables@.take(i as int),
                u,
                s,
                machine_id@,
            )->Ok_0,
        decreases bootables.len() - i,
    {
        let ghost sofar = ops.deep_view();
        let ghost upto = bootables@.take(i as int + 1);
        proof {
            assert(upto.drop_last() =~= bootables@.take(i as int));
            assert(upto.last() == bootables@[i as int]);
            lemma_generate_error_stays(bootables@, u, s, machine_id@, i as int + 1);
        }
        let item = &bootables[i];
        match &item.bootable {
            Bootable::Efi(efi) => {
                let entry = match efi_entry(efi, machine_id, item.version.as_str()) {
                    Ok(entry) => entry,
                    Err(e) => {
                        return Err(e);
                    },
                };
                match (ukify, systemd_efi_stub, entry.1.unified_dest) {
                    (Some(tool), Some(stub), Some(outpath)) => {
                        ops.push(GenerateOp::WriteFile { path: entry.0, contents: entry.1.conf });
                        ops.push(
                            GenerateOp::BuildImage {
                                ukify: tool.clone(),
                                stub: stub.clone(),
                                toplevel: efi.source.toplevel.0.clone(),
                                outpath,
                                command_line: efi.source.command_line(),
                            },
                        );
                        assert(ops.deep_view() =~= sofar + bootable_ops_spec(
                            *item,
                            u,
                            s,
                            machine_id@,
                        )->Ok_0);
                    },
                    _ => {
                        return Err(BootError::NoImageBuilder);
                    },
                }
            },
            Bootable::Linux(toplevel) => {
                let entry = linux_entry(toplevel, machine_id, item.version.as_str());
                match (
                    entry.1.kernel_src,
                    entry.1.kernel_dest,
                    entry.1.initrd_src,
                    entry.1.initrd_dest,
                ) {
                    (Some(kernel_src), Some(kernel_dest), Some(initrd_src), Some(initrd_dest)) => {
                        ops.push(GenerateOp::WriteFile { path: entry.0, contents: entry.1.conf });
                        ops.push(GenerateOp::LinkIfAbsent { src: kernel_src, dest: kernel_dest });
                        ops.push(GenerateOp::LinkIfAbsent { src: initrd_src, dest: initrd_dest });
                    },
                    _ => {},
                }
                assert(ops.deep_view() =~= sofar + bootable_ops_spec(
                    *item,
                    u,
                    s,
                    machine_id@,
                )->Ok_0);
            },
        }
        i += 1;
        assert(ops.deep_view() =~= head + generate_ops_spec(upto, u, s, machine_id@)->Ok_0);
    }
    assert(bootables@.take(bootables.len() as int) =~= bootables@);
    Ok(ops)
}

} // verus!
