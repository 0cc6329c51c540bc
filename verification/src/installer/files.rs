//! Telling apart what is new on the staging tree, what is already on the
//! partition, and what has to be signed.

use vstd::prelude::*;
use vstd::string::*;
use crate::text::{char_count, clone_strings, ends_with, owned, same_text, strip_prefix};

verus! {

/// A staged file and the file on the partition that holds the same place.
#[derive(Debug, PartialEq)]
pub struct FileToReplace {
    pub generated_loc: String,
    pub esp_loc: String,
}

/// The mathematical value of a [`FileToReplace`].
pub struct FileToReplaceView {
    pub generated_loc: Seq<char>,
    pub esp_loc: Seq<char>,
}

impl View for FileToReplace {
    type V = FileToReplaceView;

    open spec fn view(&self) -> FileToReplaceView {
        FileToReplaceView { generated_loc: self.generated_loc@, esp_loc: self.esp_loc@ }
    }
}

impl DeepView for FileToReplace {
    type V = FileToReplaceView;

    open spec fn deep_view(&self) -> FileToReplaceView {
        self@
    }
}

impl Clone for FileToReplace {
    fn clone(&self) -> (r: Self)
        ensures
            r@ == self@,
    {
        FileToReplace { generated_loc: self.generated_loc.clone(), esp_loc: self.esp_loc.clone() }
    }
}

/// An independent copy of a list of pairs.
pub fn clone_replacements(v: &Vec<FileToReplace>) -> (out: Vec<FileToReplace>)
    ensures
        out.deep_view() == v.deep_view(),
{
    let mut out: Vec<FileToReplace> = Vec::new();
    let mut i: usize = 0;
    while i < v.len()
        invariant
            i <= v.len(),
            out.deep_view() == v.deep_view().take(i as int),
        decreases v.len() - i,
    {
        let ghost before = out.deep_view();
        let f = v[i].clone();
        out.push(f);
        i += 1;
        assert(out.deep_view() =~= before.push(v@[i as int - 1]@));
        assert(out.deep_view() =~= v.deep_view().take(i as int));
    }
    assert(v.deep_view().take(v.len() as int) =~= v.deep_view());
    out
}

/// The outcome of comparing the staging tree with the partition. A staged
/// file that is in neither list is new and not an image: the final copy
/// brings it over.
#[derive(Debug)]
pub struct IdentifiedFiles {
    /// The staged images that must be signed before they can be trusted.
    pub to_sign: Vec<String>,
    /// The staged files that have a counterpart on the partition.
    pub to_replace: Vec<FileToReplace>,
}

/// The mathematical value of an [`IdentifiedFiles`].
pub struct IdentifiedFilesView {
    pub to_sign: Seq<Seq<char>>,
    pub to_replace: Seq<FileToReplaceView>,
}

impl View for IdentifiedFiles {
    type V = IdentifiedFilesView;

    open spec fn view(&self) -> IdentifiedFilesView {
        IdentifiedFilesView {
            to_sign: self.to_sign.deep_view(),
            to_replace: self.to_replace.deep_view(),
        }
    }
}

impl DeepView for IdentifiedFiles {
    type V = IdentifiedFilesView;

    open spec fn deep_view(&self) -> IdentifiedFilesView {
        self@
    }
}

impl Clone for IdentifiedFiles {
    fn clone(&self) -> (r: Self)
        ensures
            r@ == self@,
    {
        IdentifiedFiles {
            to_sign: clone_strings(&self.to_sign),
            to_replace: clone_replacements(&self.to_replace),
        }
    }
}

/// What names a file within its tree: its path with the root taken from the
/// front. The root is stripped as text, not component by component.
pub open spec fn relative_identity(path: Seq<char>, root: Seq<char>) -> Seq<char> {
    if root.is_prefix_of(path) {
        path.skip(root.len() as int)
    } else {
        path
    }
}

/// Whether a path names an executable image: a file whose name ends in
/// `.efi` with something before the dot.
pub open spec fn is_efi_image(path: Seq<char>) -> bool {
    &&& path.len() > 4
    &&& ".efi"@.is_suffix_of(path)
    &&& path[path.len() - 5] != '/'
}

/// The first of `files` whose relative identity under `root` is `rel`.
pub open spec fn counterpart(rel: Seq<char>, root: Seq<char>, files: Seq<Seq<char>>) -> Option<
    Seq<char>,
>
    decreases files.len(),
{
    if files.len() == 0 {
        None
    } else if relative_identity(files[0], root) == rel {
        Some(files[0])
    } else {
        counterpart(rel, root, files.drop_first())
    }
}

/// The staged files that have no counterpart on the partition, in order.
pub open spec fn additions(
    generated_root: Seq<char>,
    esp_root: Seq<char>,
    generated_files: Seq<Seq<char>>,
    esp_files: Seq<Seq<char>>,
) -> Seq<Seq<char>>
    decreases generated_files.len(),
{
    if generated_files.len() == 0 {
        Seq::<Seq<char>>::empty()
    } else {
        let before = additions(generated_root, esp_root, generated_files.drop_last(), esp_files);
        let file = generated_files.last();
        match counterpart(relative_identity(file, generated_root), esp_root, esp_files) {
            Some(_) => before,
            None => before.push(file),
        }
    }
}

/// The staged files that have a counterpart on the partition, each with
/// the first such counterpart, in order.
pub open spec fn replacements(
    generated_root: Seq<char>,
    esp_root: Seq<char>,
    generated_files: Seq<Seq<char>>,
    esp_files: Seq<Seq<char>>,
) -> Seq<FileToReplaceView>
    decreases generated_files.len(),
{
    if generated_files.len() == 0 {
        Seq::<FileToReplaceView>::empty()
    } else {
        let before = replacements(
            generated_root,
            esp_root,
            generated_files.drop_last(),
            esp_files,
        );
        let file = generated_files.last();
        match counterpart(relative_identity(file, generated_root), esp_root, esp_files) {
            Some(esp_loc) => before.push(FileToReplaceView { generated_loc: file, esp_loc }),
            None => before,
        }
    }
}

/// The images among `files`, in order.
pub open spec fn images(files: Seq<Seq<char>>) -> Seq<Seq<char>>
    decreases files.len(),
{
    if files.len() == 0 {
        Seq::<Seq<char>>::empty()
    } else if is_efi_image(files.last()) {
        images(files.drop_last()).push(files.last())
    } else {
        images(files.drop_last())
    }
}

/// The staged side of each pair.
pub open spec fn staged_sides(pairs: Seq<FileToReplaceView>) -> Seq<Seq<char>> {
    Seq::new(pairs.len(), |i: int| pairs[i].generated_loc)
}

/// What comparing two trees yields: the pairs to look at, and the new or
/// paired images to sign, the new ones first.
pub open spec fn identify(
    generated_root: Seq<char>,
    esp_root: Seq<char>,
    generated_files: Seq<Seq<char>>,
    esp_files: Seq<Seq<char>>,
) -> IdentifiedFilesView {
    let to_replace = replacements(generated_root, esp_root, generated_files, esp_files);
    IdentifiedFilesView {
        to_sign: images(additions(generated_root, esp_root, generated_files, esp_files))
            + images(staged_sides(to_replace)),
        to_replace,
    }
}

/// The identity of `path` within the tree at `root`.
pub fn strip_root(path: &str, root: &str) -> (r: String)
    ensures
        r@ == relative_identity(path@, root@),
{
    match strip_prefix(path, root) {
        Some(rest) => rest,
        None => owned(path),
    }
}

/// Whether `path` names an executable image.
pub fn has_efi_extension(path: &str) -> (r: bool)
    ensures
        r == is_efi_image(path@),
{
    let n = char_count(path);
    if n <= 4 || !ends_with(path, ".efi") {
        return false;
    }
    let before = crate::text::chars_of(path);
    before[n - 5] != '/'
}

fn find_counterpart(rel: &str, root: &str, files: &Vec<String>) -> (r: Option<String>)
    ensures
        r.deep_view() == counterpart(rel@, root@, files.deep_view()),
{
    let mut i: usize = 0;
    assert(files.deep_view().skip(0) =~= files.deep_view());
    while i < files.len()
        invariant
            i <= files.len(),
            counterpart(rel@, root@, files.deep_view()) == counterpart(
                rel@,
                root@,
                files.deep_view().skip(i as int),
            ),
        decreases files.len() - i,
    {
        let ghost rest = files.deep_view().skip(i as int);
        assert(rest[0] == files@[i as int]@);
        let id = strip_root(files[i].as_str(), root);
        if same_text(id.as_str(), rel) {
            return Some(files[i].clone());
        }
        assert(rest.drop_first() =~= files.deep_view().skip(i as int + 1));
        i += 1;
    }
    None
}

fn select_images(files: &Vec<String>, out: &mut Vec<String>)
    ensures
        final(out).deep_view() == old(out).deep_view() + images(files.deep_view()),
{
    let mut i: usize = 0;
    assert(files.deep_view().take(0) =~= Seq::<Seq<char>>::empty());
    assert(out.deep_view() =~= old(out).deep_view() + images(files.deep_view().take(0)));
    while i < files.len()
        invariant
            i <= files.len(),
            out.deep_view() == old(out).deep_view() + images(files.deep_view().take(i as int)),
        decreases files.len() - i,
    {
        let ghost upto = files.deep_view().take(i as int + 1);
        let ghost before = out.deep_view();
        assert(upto.drop_last() =~= files.deep_view().take(i as int));
        assert(upto.last() == files@[i as int]@);
        if has_efi_extension(files[i].as_str()) {
            out.push(files[i].clone());
            assert(out.deep_view() =~= before.push(files@[i as int]@));
        }
        assert(out.deep_view() =~= old(out).deep_view() + images(upto));
        i += 1;
    }
    assert(files.deep_view().take(files.len() as int) =~= files.deep_view());
}

impl IdentifiedFiles {
    /// Compares the files found below the staging tree with those found
    /// below the partition. Both lists hold full paths of files, no
    /// directories.
    pub fn new(
        generated_entries: &str,
        esp: &str,
        generated_files: &Vec<String>,
        esp_files: &Vec<String>,
    ) -> (r: Self)
        ensures
            r@ == identify(
                generated_entries@,
                esp@,
                generated_files.deep_view(),
                esp_files.deep_view(),
            ),
    {
        let mut to_add: Vec<String> = Vec::new();
        let mut to_replace: Vec<FileToReplace> = Vec::new();
        let mut staged: Vec<String> = Vec::new();
        let ghost gr = generated_entries@;
        let ghost er = esp@;
        let ghost gf = generated_files.deep_view();
        let ghost ef = esp_files.deep_view();
        let mut i: usize = 0;
        assert(gf.take(0) =~= Seq::<Seq<char>>::empty());
        assert(staged.deep_view() =~= staged_sides(to_replace.deep_view()));
        while i < generated_files.len()
            invariant
                i <= generated_files.len(),
                gr == generated_entries@,
                er == esp@,
                gf == generated_files.deep_view(),
                ef == esp_files.deep_view(),
                to_add.deep_view() == additions(gr, er, gf.take(i as int), ef),
                to_replace.deep_view() == replacements(gr, er, gf.take(i as int), ef),
                staged.deep_view() == staged_sides(to_replace.deep_view()),
            decreases generated_files.len() - i,
        {
            let ghost upto = gf.take(i as int + 1);
            let ghost added = to_add.deep_view();
            let ghost paired = to_replace.deep_view();
            let ghost sides = staged.deep_view();
            assert(upto.drop_last() =~= gf.take(i as int));
            assert(upto.last() == generated_files@[i as int]@);
            let id = strip_root(generated_files[i].as_str(), generated_entries);
            match find_counterpart(id.as_str(), esp, esp_files) {
                Some(esp_loc) => {
                    let pair = FileToReplace { generated_loc: generated_files[i].clone(), esp_loc };
                    let ghost pv = pair@;
                    to_replace.push(pair);
                    staged.push(generated_files[i].clone());
                    assert(to_replace.deep_view() =~= paired.push(pv));
                    assert(staged.deep_view() =~= sides.push(pv.generated_loc));
                    assert(staged.deep_view() =~= staged_sides(to_replace.deep_view()));
                },
                None => {
                    to_add.push(generated_files[i].clone());
                    assert(to_add.deep_view() =~= added.push(generated_files@[i as int]@));
                },
            }
            i += 1;
        }
        assert(gf.take(generated_files.len() as int) =~= gf);
        let mut to_sign: Vec<String> = Vec::new();
        select_images(&to_add, &mut to_sign);
        select_images(&staged, &mut to_sign);
        assert(to_sign.deep_view() =~= images(to_add.deep_view()) + images(staged.deep_view()));
        IdentifiedFiles { to_sign, to_replace }
    }
}

/// Every pair that identification yields joins two files of the same
/// relative identity, and every file it marks for signing is an image.
pub proof fn lemma_identify_is_sound(
    generated_root: Seq<char>,
    esp_root: Seq<char>,
    generated_files: Seq<Seq<char>>,
    esp_files: Seq<Seq<char>>,
)
    ensures
        forall|i: int|
            #![trigger identify(generated_root, esp_root, generated_files, esp_files).to_replace[i]]
            0 <= i < identify(generated_root, esp_root, generated_files, esp_files).to_replace.len()
                ==> {
                let pair = identify(
                    generated_root,
                    esp_root,
                    generated_files,
                    esp_files,
                ).to_replace[i];
                &&& generated_files.contains(pair.generated_loc)
                &&& esp_files.contains(pair.esp_loc)
                &&& relative_identity(pair.generated_loc, generated_root) == relative_identity(
                    pair.esp_loc,
                    esp_root,
                )
            },
        forall|i: int|
            #![trigger identify(generated_root, esp_root, generated_files, esp_files).to_sign[i]]
            0 <= i < identify(generated_root, esp_root, generated_files, esp_files).to_sign.len()
                ==> is_efi_image(
                identify(generated_root, esp_root, generated_files, esp_files).to_sign[i],
            ),
{
    let id = identify(generated_root, esp_root, generated_files, esp_files);
    lemma_replacements_match(generated_root, esp_root, generated_files, esp_files);
    lemma_images_are_images(additions(generated_root, esp_root, generated_files, esp_files));
    lemma_images_are_images(staged_sides(id.to_replace));
}

proof fn lemma_counterpart_matches(rel: Seq<char>, root: Seq<char>, files: Seq<Seq<char>>)
    ensures
        counterpart(rel, root, files) is Some ==> files.contains(counterpart(rel, root, files)->0)
            && relative_identity(counterpart(rel, root, files)->0, root) == rel,
    decreases files.len(),
{
    if files.len() == 0 {
    } else if relative_identity(files[0], root) == rel {
        assert(files[0] == files[0]);
    } else {
        lemma_counterpart_matches(rel, root, files.drop_first());
        if counterpart(rel, root, files) is Some {
            let c = counterpart(rel, root, files)->0;
            let k = choose|k: int| 0 <= k < files.drop_first().len() && files.drop_first()[k] == c;
            assert(files[k + 1] == c);
        }
    }
}

proof fn lemma_replacements_match(
    generated_root: Seq<char>,
    esp_root: Seq<char>,
    generated_files: Seq<Seq<char>>,
    esp_files: Seq<Seq<char>>,
)
    ensures
        forall|i: int|
            #![trigger replacements(generated_root, esp_root, generated_files, esp_files)[i]]
            0 <= i < replacements(generated_root, esp_root, generated_files, esp_files).len() ==> {
                let pair = replacements(generated_root, esp_root, generated_files, esp_files)[i];
                &&& generated_files.contains(pair.generated_loc)
                &&& esp_files.contains(pair.esp_loc)
                &&& relative_identity(pair.generated_loc, generated_root) == relative_identity(
                    pair.esp_loc,
                    esp_root,
                )
            },
    decreases generated_files.len(),
{
    if generated_files.len() > 0 {
        let rest = generated_files.drop_last();
        let file = generated_files.last();
        lemma_replacements_match(generated_root, esp_root, rest, esp_files);
        lemma_counterpart_matches(relative_identity(file, generated_root), esp_root, esp_files);
        let out = replacements(generated_root, esp_root, generated_files, esp_files);
        let before = replacements(generated_root, esp_root, rest, esp_files);
        assert forall|i: int| 0 <= i < out.len() implies {
            let pair = #[trigger] out[i];
            &&& generated_files.contains(pair.generated_loc)
            &&& esp_files.contains(pair.esp_loc)
            &&& relative_identity(pair.generated_loc, generated_root) == relative_identity(
                pair.esp_loc,
                esp_root,
            )
        } by {
            if i < before.len() {
                assert(out[i] == before[i]);
                let k = choose|k: int| 0 <= k < rest.len() && rest[k] == before[i].generated_loc;
                assert(generated_files[k] == before[i].generated_loc);
            } else {
                assert(generated_files[generated_files.len() - 1] == file);
            }
        }
    }
}

proof fn lemma_images_are_images(files: Seq<Seq<char>>)
    ensures
        forall|i: int| 0 <= i < images(files).len() ==> is_efi_image(#[trigger] images(files)[i]),
    decreases files.len(),
{
    if files.len() > 0 {
        lemma_images_are_images(files.drop_last());
        let before = images(files.drop_last());
        assert forall|i: int| 0 <= i < images(files).len() implies is_efi_image(
            #[trigger] images(files)[i],
        ) by {
            if i < before.len() {
                assert(images(files)[i] == before[i]);
            }
        }
    }
}

} // verus!
