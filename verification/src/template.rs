//! Template files and template directories: what is rendered, and where the output goes.
//!
//! A directory is expanded from a listing that the caller has read: the library looks at no
//! file system.

use crate::blocks::{balanced, render, rendered};
use crate::derfile::{clone_strings, Template, TemplateView};
use crate::error::Error;
use crate::paths::{join_path, joined_path, output_name, remove_template_ext_or_dir};
use crate::text::{first_index, lemma_first_index, lines_of, strs, to_chars, to_string};
use vstd::prelude::*;
use vstd::std_specs::convert::FromSpecImpl;
use vstd::string::StringExecFns;

verus! {

/// What is needed to render a template file or to expand a template directory.
#[derive(Debug)]
pub struct TemplateSettings {
    /// Path of the template file or directory.
    pub path: String,
    /// Name of the output file.
    pub final_name: String,
    /// Directory in which the output is placed.
    pub apply_path: String,
    /// The hosts for which the template is meant.
    pub hostnames: Vec<String>,
    /// For a directory: whether its files are rendered.
    pub parse_files: bool,
    /// For a directory: the extensions that mark template files.
    pub extensions: Vec<String>,
    /// For a directory: whether its subdirectories are visited too.
    pub recursive: bool,
}

/// What the settings hold.
pub struct SettingsView {
    pub path: Seq<char>,
    pub final_name: Seq<char>,
    pub apply_path: Seq<char>,
    pub hostnames: Seq<Seq<char>>,
    pub parse_files: bool,
    pub extensions: Seq<Seq<char>>,
    pub recursive: bool,
}

impl View for TemplateSettings {
    type V = SettingsView;

    open spec fn view(&self) -> SettingsView {
        SettingsView {
            path: self.path@,
            final_name: self.final_name@,
            apply_path: self.apply_path@,
            hostnames: strs(self.hostnames@),
            parse_files: self.parse_files,
            extensions: strs(self.extensions@),
            recursive: self.recursive,
        }
    }
}

impl Clone for TemplateSettings {
    fn clone(&self) -> (out: Self)
        ensures
            out@ == self@,
    {
        TemplateSettings {
            path: self.path.clone(),
            final_name: self.final_name.clone(),
            apply_path: self.apply_path.clone(),
            hostnames: clone_strings(&self.hostnames),
            parse_files: self.parse_files,
            extensions: clone_strings(&self.extensions),
            recursive: self.recursive,
        }
    }
}

/// The settings that the resolved template `t` stands for: its name is their path.
pub open spec fn settings_of(t: TemplateView) -> SettingsView {
    SettingsView {
        path: t.name,
        final_name: t.final_name,
        apply_path: t.apply_path,
        hostnames: t.hostnames,
        parse_files: t.parse_files,
        extensions: t.extensions,
        recursive: t.recursive,
    }
}

impl From<Template> for TemplateSettings {
    fn from(other: Template) -> (out: Self) {
        TemplateSettings {
            path: other.name,
            final_name: other.final_name,
            apply_path: other.apply_path,
            hostnames: other.hostnames,
            parse_files: other.parse_files,
            extensions: other.extensions,
            recursive: other.recursive,
        }
    }
}

impl FromSpecImpl<Template> for TemplateSettings {
    open spec fn obeys_from_spec() -> bool {
        true
    }

    open spec fn from_spec(other: Template) -> Self {
        TemplateSettings {
            path: other.name,
            final_name: other.final_name,
            apply_path: other.apply_path,
            hostnames: other.hostnames,
            parse_files: other.parse_files,
            extensions: other.extensions,
            recursive: other.recursive,
        }
    }
}

/// A template file: its settings and, once it was read, its content.
#[derive(Debug)]
pub struct TemplateFile(pub TemplateSettings, pub Option<String>);

/// What a template file holds.
pub struct FileView {
    pub settings: SettingsView,
    pub content: Option<Seq<char>>,
}

impl View for TemplateFile {
    type V = FileView;

    open spec fn view(&self) -> FileView {
        FileView {
            settings: self.0@,
            content: match self.1 {
                Some(c) => Some(c@),
                None => None,
            },
        }
    }
}

impl Clone for TemplateFile {
    fn clone(&self) -> (out: Self)
        ensures
            out@ == self@,
    {
        TemplateFile(
            self.0.clone(),
            match &self.1 {
                Some(c) => Some(c.clone()),
                None => None,
            },
        )
    }
}

/// A template directory, which holds template files and further directories.
#[derive(Debug)]
pub struct TemplateDirectory {
    pub settings: TemplateSettings,
}

impl Clone for TemplateDirectory {
    fn clone(&self) -> (out: Self)
        ensures
            out.settings@ == self.settings@,
    {
        TemplateDirectory { settings: self.settings.clone() }
    }
}

/// A template file or a template directory.
#[derive(Debug)]
pub enum TemplateStructure {
    File(TemplateFile),
    Directory(TemplateDirectory),
}

/// What a template structure holds.
pub enum StructureView {
    File(FileView),
    Directory(SettingsView),
}

impl View for TemplateStructure {
    type V = StructureView;

    open spec fn view(&self) -> StructureView {
        match self {
            TemplateStructure::File(f) => StructureView::File(f@),
            TemplateStructure::Directory(d) => StructureView::Directory(d.settings@),
        }
    }
}

impl Clone for TemplateStructure {
    fn clone(&self) -> (out: Self)
        ensures
            out@ == self@,
    {
        match self {
            TemplateStructure::File(f) => TemplateStructure::File(f.clone()),
            TemplateStructure::Directory(d) => TemplateStructure::Directory(d.clone()),
        }
    }
}

/// The template structures of one derfile.
pub type TemplateStructures = Vec<TemplateStructure>;

/// What the structures `v` hold.
pub open spec fn structure_views(v: Seq<TemplateStructure>) -> Seq<StructureView> {
    v.map_values(|s: TemplateStructure| s@)
}

/// The output of a rendered template file.
#[derive(Debug, Clone)]
pub struct ParsedTemplate(pub String);

/// What an entry of a directory is.
#[derive(Debug, Clone, Copy, PartialEq, Eq, Structural)]
pub enum EntryKind {
    /// A regular file.
    File,
    /// A directory.
    Directory,
    /// A symbolic link or anything else.
    Other,
}

/// An entry of a directory as the caller found it: its path, what it is and, for a
/// directory, its own entries in the order of the listing.
#[derive(Debug)]
pub struct DirEntry {
    pub path: String,
    pub kind: EntryKind,
    pub entries: Vec<DirEntry>,
}

/// The file to which the output of a template goes: the output name inside the output
/// directory, with one separator between them.
pub open spec fn destination(apply_path: Seq<char>, final_name: Seq<char>) -> Seq<char> {
    if apply_path.len() > 0 && apply_path.last() == '/' {
        apply_path + final_name
    } else {
        apply_path.push('/') + final_name
    }
}

/// The settings of the entry at `path` of a directory with the settings `parent`. The
/// entry's path is its identity. Its output directory is that of the parent joined with the
/// parent's output name. Its output name is its last component, for a file without the
/// extension where that is one of the parent's. The rest is the parent's.
pub open spec fn child_settings(parent: SettingsView, path: Seq<char>, is_dir: bool) -> SettingsView {
    SettingsView {
        path: path,
        final_name: output_name(path, is_dir, parent.extensions),
        apply_path: joined_path(parent.apply_path, parent.final_name),
        ..parent
    }
}

/// The structures that the first `n` of `entries` give in a directory with the settings
/// `parent`, in the order of the listing. A file gives a file structure without content. A
/// directory gives, where the parent is recursive, a directory structure followed by what
/// its own entries give; otherwise nothing. Any other entry gives nothing.
pub open spec fn expanded(parent: SettingsView, entries: Seq<DirEntry>, n: int) -> Seq<
    StructureView,
>
    decreases entries, n,
{
    if n <= 0 || n > entries.len() {
        Seq::empty()
    } else {
        let prev = expanded(parent, entries, n - 1);
        let e = entries[n - 1];
        match e.kind {
            EntryKind::Directory => if parent.recursive {
                let child = child_settings(parent, e.path@, true);
                prev.push(StructureView::Directory(child)) + expanded(
                    child,
                    e.entries@,
                    e.entries@.len() as int,
                )
            } else {
                prev
            },
            EntryKind::File => prev.push(
                StructureView::File(
                    FileView { settings: child_settings(parent, e.path@, false), content: None },
                ),
            ),
            EntryKind::Other => prev,
        }
    }
}

/// The settings of the entry at `path` of a directory with the settings `parent`.
pub fn settings_for(parent: &TemplateSettings, path: &String, is_dir: bool) -> (out:
    TemplateSettings)
    ensures
        out@ == child_settings(parent@, path@, is_dir),
{
    let apply_path = join_path(
        &to_chars(parent.apply_path.as_str()),
        &to_chars(parent.final_name.as_str()),
    );
    TemplateSettings {
        path: path.clone(),
        final_name: remove_template_ext_or_dir(path.as_str(), is_dir, &parent.extensions),
        apply_path: to_string(&apply_path),
        hostnames: clone_strings(&parent.hostnames),
        parse_files: parent.parse_files,
        extensions: clone_strings(&parent.extensions),
        recursive: parent.recursive,
    }
}

/// The structures that `entries` give in a directory with the settings `parent`.
pub fn expand(parent: &TemplateSettings, entries: &Vec<DirEntry>) -> (out: Vec<TemplateStructure>)
    ensures
        structure_views(out@) == expanded(parent@, entries@, entries@.len() as int),
    decreases entries,
{
    let mut out: Vec<TemplateStructure> = Vec::new();
    let mut i: usize = 0;
    assert(structure_views(out@) =~= Seq::empty());
    while i < entries.len()
        invariant
            i <= entries.len(),
            structure_views(out@) == expanded(parent@, entries@, i as int),
        decreases entries.len() - i,
    {
        let e = &entries[i];
        match e.kind {
            EntryKind::Directory => {
                if parent.recursive {
                    let child = settings_for(parent, &e.path, true);
                    let inner = expand(&child, &e.entries);
                    let dir = TemplateStructure::Directory(TemplateDirectory { settings: child });
                    let ghost start = structure_views(out@);
                    assert(structure_views(out@.push(dir)) =~= start.push(dir@));
                    out.push(dir);
                    let mut k: usize = 0;
                    assert(start.push(dir@) + structure_views(inner@).take(0) =~= start.push(dir@));
                    while k < inner.len()
                        invariant
                            k <= inner.len(),
                            structure_views(out@) == start.push(dir@) + structure_views(
                                inner@,
                            ).take(k as int),
                        decreases inner.len() - k,
                    {
                        let s = inner[k].clone();
                        proof {
                            assert(structure_views(out@.push(s)) =~= structure_views(out@).push(
                                s@,
                            ));
                            assert((start.push(dir@) + structure_views(inner@).take(k as int)).push(
                                s@,
                            ) =~= start.push(dir@) + structure_views(inner@).take(k + 1));
                        }
                        out.push(s);
                        k += 1;
                    }
                    assert(structure_views(inner@).take(inner.len() as int) =~= structure_views(
                        inner@,
                    ));
                }
            },
            EntryKind::File => {
                let file = TemplateStructure::File(
                    TemplateFile::new(settings_for(parent, &e.path, false), None),
                );
                assert(structure_views(out@.push(file)) =~= structure_views(out@).push(file@));
                out.push(file);
            },
            EntryKind::Other => {},
        }
        i += 1;
    }
    out
}

impl TemplateFile {
    /// A template file with the settings `ts` and the content `s`.
    pub fn new(ts: TemplateSettings, s: Option<String>) -> (out: Self)
        ensures
            out.0 == ts,
            out.1 == s,
    {
        Self(ts, s)
    }

    /// Renders the file for the host `hostname`.
    ///
    /// Fails with `MissingContent` exactly when the file has no content, and with
    /// `UnbalancedBlocks` exactly when it has content whose markers do not pair up.
    pub fn parse(&self, hostname: &str) -> (r: Result<ParsedTemplate, Error>)
        ensures
            match self@.content {
                None => r is Err && r->Err_0 == Error::MissingContent,
                Some(c) => match r {
                    Ok(p) => balanced(lines_of(c)) && p.0@ == rendered(c, hostname@),
                    Err(e) => !balanced(lines_of(c)) && e == Error::UnbalancedBlocks,
                },
            },
    {
        match &self.1 {
            None => Err(Error::MissingContent),
            Some(content) => {
                match render(&to_chars(content.as_str()), &to_chars(hostname)) {
                    Ok(out) => Ok(ParsedTemplate(to_string(&out))),
                    Err(e) => Err(e),
                }
            },
        }
    }

    /// Renders the file for the host `hostname` and replaces its output directory by the
    /// file to which the output goes. It fails when `parse` fails, and then changes nothing.
    pub fn apply(&mut self, hostname: &str) -> (r: Result<ParsedTemplate, Error>)
        ensures
            match old(self)@.content {
                None => r is Err && r->Err_0 == Error::MissingContent,
                Some(c) => match r {
                    Ok(p) => balanced(lines_of(c)) && p.0@ == rendered(c, hostname@),
                    Err(e) => !balanced(lines_of(c)) && e == Error::UnbalancedBlocks,
                },
            },
            r is Err ==> *final(self) == *old(self),
            r is Ok ==> final(self)@ == (FileView {
                settings: SettingsView {
                    apply_path: destination(
                        old(self)@.settings.apply_path,
                        old(self)@.settings.final_name,
                    ),
                    ..old(self)@.settings
                },
                ..old(self)@
            }),
    {
        let parsed = self.parse(hostname);
        if parsed.is_ok() {
            let mut target = to_chars(self.0.apply_path.as_str());
            if target.len() == 0 || target[target.len() - 1] != '/' {
                target.push('/');
            }
            let name = to_chars(self.0.final_name.as_str());
            crate::paths::extend(&mut target, &name);
            self.0.apply_path = to_string(&target);
        }
        parsed
    }
}

impl TemplateDirectory {
    /// A template directory with the settings `ts`.
    pub fn new(ts: TemplateSettings) -> (out: Self)
        ensures
            out.settings == ts,
    {
        Self { settings: ts }
    }

    /// The structures that the directory's `entries` give. It never fails.
    pub fn parse(&self, entries: &Vec<DirEntry>) -> (r: Result<Vec<TemplateStructure>, Error>)
        ensures
            r is Ok,
            structure_views(r->Ok_0@) == expanded(self.settings@, entries@, entries@.len() as int),
    {
        Ok(expand(&self.settings, entries))
    }
}

impl TemplateStructure {
    /// The structure for the resolved template `other`: a directory structure where the
    /// template is a directory, a file structure without content otherwise.
    pub fn from_template(other: Template, is_dir: bool) -> (out: Self)
        ensures
            out@ == if is_dir {
                StructureView::Directory(settings_of(other@))
            } else {
                StructureView::File(FileView { settings: settings_of(other@), content: None })
            },
    {
        let settings = TemplateSettings::from(other);
        if is_dir {
            TemplateStructure::Directory(TemplateDirectory::new(settings))
        } else {
            TemplateStructure::File(TemplateFile::new(settings, None))
        }
    }
}

/// The paths of `tree`, in order.
pub open spec fn paths_of(tree: Seq<DirEntry>) -> Seq<Seq<char>> {
    tree.map_values(|e: DirEntry| e.path@)
}

/// The entry of `tree` at `path`: the first with this path.
pub open spec fn entry_at(tree: Seq<DirEntry>, path: Seq<char>) -> Option<DirEntry> {
    let i = first_index(paths_of(tree), path);
    if 0 <= i < tree.len() {
        Some(tree[i])
    } else {
        None
    }
}

/// The structures that the resolved template `t` gives, with `tree` saying what is found at
/// the templates' paths. A directory gives a directory structure followed by what its
/// entries give; a file gives a file structure without content; any other entry, and a path
/// at which nothing was found, give nothing.
pub open spec fn built_one(t: TemplateView, tree: Seq<DirEntry>) -> Seq<StructureView> {
    match entry_at(tree, t.name) {
        Some(e) => match e.kind {
            EntryKind::Directory => seq![StructureView::Directory(settings_of(t))] + expanded(
                settings_of(t),
                e.entries@,
                e.entries@.len() as int,
            ),
            EntryKind::File => seq![
                StructureView::File(FileView { settings: settings_of(t), content: None }),
            ],
            EntryKind::Other => Seq::empty(),
        },
        None => Seq::empty(),
    }
}

/// The structures that the first `n` of `templates` give, in their order.
pub open spec fn built(templates: Seq<TemplateView>, tree: Seq<DirEntry>, n: int) -> Seq<
    StructureView,
>
    decreases n,
{
    if n <= 0 {
        Seq::empty()
    } else {
        built(templates, tree, n - 1) + built_one(templates[n - 1], tree)
    }
}

/// What the templates `v` hold.
pub open spec fn template_views(v: Seq<Template>) -> Seq<TemplateView> {
    v.map_values(|t: Template| t@)
}

/// The entry of `tree` at `path`, if there is one.
pub fn find_in_tree<'a>(tree: &'a Vec<DirEntry>, path: &str) -> (r: Option<&'a DirEntry>)
    ensures
        match r {
            Some(e) => entry_at(tree@, path@) == Some(*e),
            None => entry_at(tree@, path@) is None,
        },
{
    let wanted = String::from_str(path);
    let mut i: usize = 0;
    while i < tree.len()
        invariant
            i <= tree.len(),
            wanted@ == path@,
            forall|j: int| 0 <= j < i ==> #[trigger] paths_of(tree@)[j] != path@,
        decreases tree.len() - i,
    {
        if tree[i].path == wanted {
            proof {
                lemma_first_index(paths_of(tree@), path@, i as int);
            }
            return Some(&tree[i]);
        }
        i += 1;
    }
    proof {
        lemma_first_index(paths_of(tree@), path@, i as int);
    }
    None
}

/// The structures of the resolved templates `input`, in their order, with `tree` saying
/// what is found at the templates' paths. It never fails.
pub fn recursive_build(input: Vec<Template>, tree: &Vec<DirEntry>) -> (r: Result<
    TemplateStructures,
    Error,
>)
    ensures
        r is Ok,
        structure_views(r->Ok_0@) == built(template_views(input@), tree@, input@.len() as int),
{
    let mut out: Vec<TemplateStructure> = Vec::new();
    let mut i: usize = 0;
    assert(structure_views(out@) =~= Seq::empty());
    while i < input.len()
        invariant
            i <= input.len(),
            structure_views(out@) == built(template_views(input@), tree@, i as int),
        decreases input.len() - i,
    {
        let t = &input[i];
        assert(template_views(input@)[i as int] == t@);
        let ghost start = structure_views(out@);
        match find_in_tree(tree, t.name.as_str()) {
            Some(e) => match e.kind {
                EntryKind::Directory => {
                    let settings = TemplateSettings::from(t.clone());
                    let inner = expand(&settings, &e.entries);
                    let dir = TemplateStructure::Directory(TemplateDirectory::new(settings));
                    assert(structure_views(out@.push(dir)) =~= start.push(dir@));
                    out.push(dir);
                    let mut k: usize = 0;
                    assert(start.push(dir@) + structure_views(inner@).take(0) =~= start.push(dir@));
                    while k < inner.len()
                        invariant
                            k <= inner.len(),
                            structure_views(out@) == start.push(dir@) + structure_views(
                                inner@,
                            ).take(k as int),
                        decreases inner.len() - k,
                    {
                        let s = inner[k].clone();
                        proof {
                            assert(structure_views(out@.push(s)) =~= structure_views(out@).push(
                                s@,
                            ));
                            assert((start.push(dir@) + structure_views(inner@).take(k as int)).push(
                                s@,
                            ) =~= start.push(dir@) + structure_views(inner@).take(k + 1));
                        }
                        out.push(s);
                        k += 1;
                    }
                    proof {
                        assert(structure_views(inner@).take(inner.len() as int)
                            =~= structure_views(inner@));
                        assert(start.push(dir@) + structure_views(inner@) =~= start + (seq![dir@]
                            + structure_views(inner@)));
                    }
                },
                EntryKind::File => {
                    let file = TemplateStructure::from_template(t.clone(), false);
                    proof {
                        assert(structure_views(out@.push(file)) =~= start.push(file@));
                        assert(start.push(file@) =~= start + seq![file@]);
                    }
                    out.push(file);
                },
                EntryKind::Other => {
                    assert(start + Seq::<StructureView>::empty() =~= start);
                },
            },
            None => {
                assert(start + Seq::<StructureView>::empty() =~= start);
            },
        }
        i += 1;
    }
    Ok(out)
}

/// A directory that is not recursive gives file structures only, one for each regular file
/// among its entries, in the order of the listing, and never looks into a subdirectory.
pub proof fn lemma_flat_expansion(parent: SettingsView, entries: Seq<DirEntry>, n: int)
    requires
        !parent.recursive,
        0 <= n <= entries.len(),
    ensures
        expanded(parent, entries, n).len() <= n,
        forall|k: int|
            0 <= k < expanded(parent, entries, n).len() ==> exists|i: int|
                0 <= i < n && entries[i].kind == EntryKind::File && #[trigger] expanded(
                    parent,
                    entries,
                    n,
                )[k] == StructureView::File(
                    FileView {
                        settings: child_settings(parent, entries[i].path@, false),
                        content: None,
                    },
                ),
    decreases n,
{
    if n > 0 {
        lemma_flat_expansion(parent, entries, n - 1);
        let prev = expanded(parent, entries, n - 1);
        let out = expanded(parent, entries, n);
        assert forall|k: int| 0 <= k < out.len() implies exists|i: int|
            0 <= i < n && entries[i].kind == EntryKind::File && #[trigger] out[k]
                == StructureView::File(
                FileView {
                    settings: child_settings(parent, entries[i].path@, false),
                    content: None,
                },
            ) by {
            if k < prev.len() {
                assert(out[k] == prev[k]);
                let i = choose|i: int|
                    0 <= i < n - 1 && entries[i].kind == EntryKind::File && prev[k]
                        == StructureView::File(
                        FileView {
                            settings: child_settings(parent, entries[i].path@, false),
                            content: None,
                        },
                    );
                assert(0 <= i < n);
            } else {
                assert(entries[n - 1].kind == EntryKind::File);
            }
        }
    }
}

} // verus!
