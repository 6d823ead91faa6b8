//! Files dropped on the editor: images become links in a Markdown text, other files are opened.

use vstd::prelude::*;
use vstd::string::*;
use crate::image_view::{image_path, is_image_path};
use crate::paths::{
    components, components_of, extension, extension_of, file_name, in_folder, last_dot, lies_in, name_of,
    names_are_stem_and_extension, path_in, path_lies_in, replace_each, replaced, replaced_is_rid_of, stem, stem_of,
    the_last_dot_is_the_last,
};
use crate::seqs::{first_index, first_index_holds, first_index_is, first_index_none};
use crate::text::{decimal, decimal_reads_back, decimal_text, join, joined, texts, texts_push};
use crate::workspace::{Effect, Model, Notice, Workspace};

verus! {

/// How many names are tried before a file is given up.
pub const DESTINATION_TRIES: u64 = 1000;

/// The name that is tried as the `index`-th: the name itself, then with a number before its
/// extension.
pub open spec fn numbered(name: Seq<char>, index: nat) -> Seq<char> {
    if index == 0 {
        name
    } else {
        let suffix = match extension(name) {
            Some(e) => "."@ + e,
            None => Seq::empty(),
        };
        stem(name) + "-"@ + decimal(index) + suffix
    }
}

/// The name that is tried as the `index`-th for a file in a folder.
pub fn destination_name(name: &str, index: u64) -> (r: String)
    ensures
        r@ == numbered(name@, index as nat),
{
    if index == 0 {
        return name.to_owned();
    }
    let mut out = stem_of(name);
    out.append("-");
    out.append(decimal_text(index).as_str());
    match extension_of(name) {
        Some(e) => {
            let ghost before = out@;
            out.append(".");
            out.append(e.as_str());
            assert(out@ =~= before + ("."@ + e@));
        },
        None => {
            assert(out@ + Seq::<char>::empty() =~= out@);
        },
    }
    out
}

/// The first try that is not taken, where `taken` tells of each try whether something is there.
pub open spec fn first_free(taken: Seq<bool>) -> int {
    match first_index(taken, |b: bool| !b) {
        Some(i) => i,
        None => taken.len() as int,
    }
}

/// Where a file of this name goes in a folder without replacing anything; `None` where every try is
/// taken. `taken` tells of each try whether something is there; tries that it does not tell of are
/// free.
pub fn unused_destination(directory: &str, name: &str, taken: &Vec<bool>) -> (r: Option<String>)
    ensures
        match r {
            Some(path) => first_free(taken@) < DESTINATION_TRIES && path@ == in_folder(
                directory@,
                numbered(name@, first_free(taken@) as nat),
            ),
            None => first_free(taken@) >= DESTINATION_TRIES,
        },
{
    let ghost free = |b: bool| !b;
    let mut i: usize = 0;
    while i < taken.len() && taken[i]
        invariant
            i <= taken@.len(),
            free == (|b: bool| !b),
            forall|j: int| 0 <= j < i ==> !free(#[trigger] taken@[j]),
        decreases taken@.len() - i,
    {
        i = i + 1;
    }
    proof {
        if i < taken@.len() {
            first_index_is(taken@, free, i as int);
        } else {
            first_index_none(taken@, free);
        }
    }
    let index: u64 = i as u64;
    if index >= DESTINATION_TRIES {
        return None;
    }
    Some(path_in(directory, destination_name(name, index).as_str()))
}

/// Where an image is for a document to link it.
pub enum ImagePlace {
    /// Where it is already: it lies in the project.
    Here,
    /// In this place, once it was copied there.
    Copied(String),
    /// It has no name to be copied under.
    NoName,
    /// Every name that was tried is taken.
    NoDestination,
}

/// Where an image is for a document of this folder to link it: an image of the project stays where
/// it is, any other is copied beside the document.
pub fn place_image(source: &str, document_dir: &str, project_root: &str, taken: &Vec<bool>) -> (r: ImagePlace)
    ensures
        if lies_in(source@, project_root@) {
            r is Here
        } else {
            match name_of(source@) {
                None => r is NoName,
                Some(name) => if first_free(taken@) < DESTINATION_TRIES {
                    r matches ImagePlace::Copied(path) && path@ == in_folder(
                        document_dir@,
                        numbered(name, first_free(taken@) as nat),
                    )
                } else {
                    r is NoDestination
                },
            }
        },
{
    if path_lies_in(source, project_root) {
        return ImagePlace::Here;
    }
    match file_name(source) {
        None => ImagePlace::NoName,
        Some(name) => match unused_destination(document_dir, name.as_str(), taken) {
            Some(path) => ImagePlace::Copied(path),
            None => ImagePlace::NoDestination,
        },
    }
}

/// A file is never copied over another: the place that is chosen is one that is not taken.
pub proof fn nothing_is_copied_over(taken: Seq<bool>)
    ensures
        0 <= first_free(taken) <= taken.len(),
        first_free(taken) < taken.len() ==> !taken[first_free(taken)],
        forall|i: int| 0 <= i < first_free(taken) ==> #[trigger] taken[i],
{
    let free = |b: bool| !b;
    first_index_holds(taken, free);
    assert forall|i: int| 0 <= i < first_free(taken) implies #[trigger] taken[i] by {
        assert(!free(taken[i]));
    }
}

/// How many components two paths have in common from the start.
pub open spec fn common(a: Seq<Seq<char>>, b: Seq<Seq<char>>) -> int
    decreases a.len(),
{
    if a.len() > 0 && b.len() > 0 && a[0] == b[0] {
        1 + common(a.drop_first(), b.drop_first())
    } else {
        0
    }
}

pub proof fn common_holds(a: Seq<Seq<char>>, b: Seq<Seq<char>>)
    ensures
        0 <= common(a, b) <= a.len(),
        common(a, b) <= b.len(),
        a.take(common(a, b)) == b.take(common(a, b)),
        common(a, b) < a.len() && common(a, b) < b.len() ==> a[common(a, b)] != b[common(a, b)],
    decreases a.len(),
{
    let n = common(a, b);
    if a.len() > 0 && b.len() > 0 && a[0] == b[0] {
        let c = a.drop_first();
        let d = b.drop_first();
        common_holds(c, d);
        assert forall|i: int| 0 <= i < n implies a[i] == b[i] by {
            if i > 0 {
                assert(c.take(n - 1)[i - 1] == d.take(n - 1)[i - 1]);
            }
        }
    }
    assert(a.take(n) =~= b.take(n));
}

proof fn common_is(a: Seq<Seq<char>>, b: Seq<Seq<char>>, n: int)
    requires
        0 <= n <= a.len(),
        n <= b.len(),
        forall|i: int| 0 <= i < n ==> #[trigger] a[i] == b[i],
        n < a.len() && n < b.len() ==> a[n] != b[n],
    ensures
        common(a, b) == n,
    decreases a.len(),
{
    if n > 0 {
        assert(a[0] == b[0]);
        let c = a.drop_first();
        let d = b.drop_first();
        assert forall|i: int| 0 <= i < n - 1 implies #[trigger] c[i] == d[i] by {
            assert(a[i + 1] == b[i + 1]);
        }
        common_is(c, d, n - 1);
    }
}

/// `n` times the step to the folder above.
pub open spec fn ups(n: nat) -> Seq<Seq<char>> {
    Seq::new(n, |i: int| ".."@)
}

/// The steps that lead from one path to another.
pub open spec fn steps(from: Seq<Seq<char>>, to: Seq<Seq<char>>) -> Seq<Seq<char>> {
    ups((from.len() - common(from, to)) as nat) + to.skip(common(from, to))
}

/// The link that leads from a folder to a path.
pub open spec fn link(from_dir: Seq<char>, to: Seq<char>) -> Seq<char> {
    let from = components(from_dir);
    let target = components(to);
    if common(from, target) == 0 {
        replaced(to, '\\', "/"@)
    } else {
        join(steps(from, target), "/"@)
    }
}

/// The path from a folder to a file, with `/` between its components; the whole path of the file
/// where the two have no root in common.
pub fn relative_link(from_dir: &str, to: &str) -> (r: String)
    ensures
        r@ == link(from_dir@, to@),
{
    let from = components_of(from_dir);
    let target = components_of(to);
    let ghost f = components(from_dir@);
    let ghost t = components(to@);
    proof {
        assert(texts(from@).len() == from@.len());
        assert(texts(target@).len() == target@.len());
    }
    let mut shared: usize = 0;
    while shared < from.len() && shared < target.len() && from[shared] == target[shared]
        invariant
            shared <= from@.len(),
            shared <= target@.len(),
            texts(from@) == f,
            texts(target@) == t,
            forall|i: int| 0 <= i < shared ==> #[trigger] f[i] == t[i],
        decreases from@.len() - shared,
    {
        proof {
            assert(f[shared as int] == from@[shared as int]@);
            assert(t[shared as int] == target@[shared as int]@);
        }
        shared = shared + 1;
    }
    proof {
        if shared < f.len() && shared < t.len() {
            assert(f[shared as int] == from@[shared as int]@);
            assert(t[shared as int] == target@[shared as int]@);
        }
        common_is(f, t, shared as int);
    }
    if shared == 0 {
        return replace_each(to, '\\', "/");
    }
    let up: usize = from.len() - shared;
    let mut parts: Vec<String> = Vec::new();
    let mut i: usize = 0;
    assert(texts(parts@) =~= ups(0));
    while i < up
        invariant
            i <= up,
            texts(parts@) == ups(i as nat),
        decreases up - i,
    {
        let step = "..".to_owned();
        proof {
            texts_push(parts@, step);
            assert(ups((i + 1) as nat) =~= ups(i as nat).push(".."@));
        }
        parts.push(step);
        i = i + 1;
    }
    let mut j: usize = shared;
    assert(texts(parts@) =~= ups(up as nat) + t.subrange(shared as int, shared as int));
    while j < target.len()
        invariant
            shared <= j <= target@.len(),
            texts(target@) == t,
            t.len() == target@.len(),
            texts(parts@) == ups(up as nat) + t.subrange(shared as int, j as int),
        decreases target@.len() - j,
    {
        let part = target[j].clone();
        proof {
            texts_push(parts@, part);
            assert(t[j as int] == part@);
            assert(t.subrange(shared as int, j + 1) =~= t.subrange(shared as int, j as int).push(part@));
            assert((ups(up as nat) + t.subrange(shared as int, j as int)).push(part@) =~= ups(up as nat) + t.subrange(
                shared as int,
                j + 1,
            ));
        }
        parts.push(part);
        j = j + 1;
    }
    assert(t.subrange(shared as int, t.len() as int) =~= t.skip(shared as int));
    joined(&parts, "/")
}

/// Where a walk of steps leads: `..` leaves a folder, anything else enters one.
pub open spec fn walked(at: Seq<Seq<char>>, steps: Seq<Seq<char>>) -> Seq<Seq<char>>
    decreases steps.len(),
{
    if steps.len() == 0 {
        at
    } else {
        let before = walked(at, steps.drop_last());
        if steps.last() != ".."@ {
            before.push(steps.last())
        } else if before.len() > 0 {
            before.drop_last()
        } else {
            before
        }
    }
}

proof fn walked_up(at: Seq<Seq<char>>, n: nat)
    requires
        n <= at.len(),
    ensures
        walked(at, ups(n)) == at.take(at.len() - n),
    decreases n,
{
    if n == 0 {
        assert(at.take(at.len() as int) =~= at);
        assert(ups(0) =~= Seq::empty());
    } else {
        assert(ups(n).drop_last() =~= ups((n - 1) as nat));
        walked_up(at, (n - 1) as nat);
        assert(at.take(at.len() - n + 1).drop_last() =~= at.take(at.len() - n));
    }
}

proof fn walked_down(at: Seq<Seq<char>>, up: Seq<Seq<char>>, down: Seq<Seq<char>>)
    requires
        forall|i: int| 0 <= i < down.len() ==> #[trigger] down[i] != ".."@,
    ensures
        walked(at, up + down) == walked(at, up) + down,
    decreases down.len(),
{
    if down.len() == 0 {
        assert(up + down =~= up);
        assert(walked(at, up) + down =~= walked(at, up));
    } else {
        let rest = down.drop_last();
        assert forall|i: int| 0 <= i < rest.len() implies #[trigger] rest[i] != ".."@ by {
            assert(rest[i] == down[i]);
        }
        walked_down(at, up, rest);
        assert((up + down).drop_last() =~= up + rest);
        assert((up + down).last() == down.last());
        assert(down[down.len() - 1] != ".."@);
        assert((walked(at, up) + rest).push(down.last()) =~= walked(at, up) + down);
    }
}

/// A link leads where it should: its steps, walked from the folder, end at the file.
pub proof fn links_lead_to_their_file(from: Seq<Seq<char>>, to: Seq<Seq<char>>)
    requires
        forall|i: int| 0 <= i < to.len() ==> #[trigger] to[i] != ".."@,
    ensures
        walked(from, steps(from, to)) == to,
{
    common_holds(from, to);
    let n = common(from, to);
    let rest = to.skip(n);
    assert forall|i: int| 0 <= i < rest.len() implies #[trigger] rest[i] != ".."@ by {
        assert(rest[i] == to[i + n]);
    }
    walked_up(from, (from.len() - n) as nat);
    walked_down(from, ups((from.len() - n) as nat), rest);
    assert(from.take(n) + rest =~= to);
}

/// The words of an image link: the name of the image without its extension, brackets escaped.
pub open spec fn alt_text(image: Seq<char>) -> Seq<char> {
    let name = match name_of(image) {
        Some(n) => stem(n),
        None => Seq::empty(),
    };
    replaced(replaced(name, '[', "\\["@), ']', "\\]"@)
}

/// A link target that cannot end a Markdown link early.
pub open spec fn safe_target(target: Seq<char>) -> Seq<char> {
    replaced(replaced(replaced(target, ' ', "%20"@), '(', "%28"@), ')', "%29"@)
}

/// The Markdown of an image.
pub open spec fn image_markdown(image: Seq<char>, document_dir: Seq<char>) -> Seq<char> {
    "!["@ + alt_text(image) + "]("@ + safe_target(link(document_dir, image)) + ")"@
}

/// The Markdown that shows an image in a document of this folder.
pub fn markdown_image_link(image: &str, document_dir: &str) -> (r: String)
    ensures
        r@ == image_markdown(image@, document_dir@),
{
    let name = match file_name(image) {
        Some(n) => stem_of(n.as_str()),
        None => String::new(),
    };
    let opened = replace_each(name.as_str(), '[', "\\[");
    let alt = replace_each(opened.as_str(), ']', "\\]");
    let bare = relative_link(document_dir, image);
    let spaced = replace_each(bare.as_str(), ' ', "%20");
    let left = replace_each(spaced.as_str(), '(', "%28");
    let target = replace_each(left.as_str(), ')', "%29");
    let mut out = "![".to_owned();
    out.append(alt.as_str());
    out.append("](");
    out.append(target.as_str());
    out.append(")");
    out
}

/// No space and no bracket is left in the target of an image link.
pub proof fn link_targets_are_safe(target: Seq<char>)
    ensures
        !safe_target(target).contains(' '),
        !safe_target(target).contains('('),
        !safe_target(target).contains(')'),
{
    reveal_strlit("%20");
    reveal_strlit("%28");
    reveal_strlit("%29");
    let spaced = replaced(target, ' ', "%20"@);
    let left = replaced(spaced, '(', "%28"@);
    replaced_is_rid_of(target, ' ', "%20"@, ' ');
    replaced_is_rid_of(spaced, '(', "%28"@, ' ');
    replaced_is_rid_of(spaced, '(', "%28"@, '(');
    replaced_is_rid_of(left, ')', "%29"@, ' ');
    replaced_is_rid_of(left, ')', "%29"@, '(');
    replaced_is_rid_of(left, ')', "%29"@, ')');
}

/// The editor that files were dropped on.
pub struct DropTarget {
    pub tab: u64,
    /// The file that it shows.
    pub document: Option<String>,
    /// The file is a Markdown text.
    pub markdown: bool,
}

impl Model {
    /// The active editor, where there is one, as what files were dropped on.
    pub open spec fn active_target(self, markdown: bool) -> Option<DropTarget> {
        if self.has_active_editor() {
            let document = if self.tab().has_file { Some(self.tab().path) } else { None };
            Some(DropTarget { tab: self.tab().id, document, markdown })
        } else {
            None
        }
    }
}

/// An image that was put where the document can link it, or why that failed.
pub enum PlacedImage {
    Placed { path: String, copied: bool },
    Failed(String),
}

pub open spec fn all_images(files: Seq<String>) -> bool {
    forall|i: int| 0 <= i < files.len() ==> image_path((#[trigger] files[i])@)
}

/// The effects that open files, in order.
pub open spec fn open_each(files: Seq<String>) -> Seq<Effect> {
    files.map_values(|file: String| Effect::OpenFile(file))
}

fn are_all_images(files: &Vec<String>) -> (b: bool)
    ensures
        b == all_images(files@),
{
    let mut i: usize = 0;
    while i < files.len()
        invariant
            i <= files@.len(),
            forall|k: int| 0 <= k < i ==> image_path((#[trigger] files@[k])@),
        decreases files@.len() - i,
    {
        if !is_image_path(files[i].as_str()) {
            return false;
        }
        i = i + 1;
    }
    true
}

impl Workspace {
    fn open_files(&mut self, files: &Vec<String>)
        ensures
            final(self)@ == (Model { effects: old(self)@.effects + open_each(files@), ..old(self)@ }),
    {
        let mut i: usize = 0;
        assert(self@.effects =~= old(self)@.effects + open_each(files@.take(0)));
        while i < files.len()
            invariant
                i <= files@.len(),
                self@ == (Model { effects: old(self)@.effects + open_each(files@.take(i as int)), ..old(self)@ }),
            decreases files@.len() - i,
        {
            self.effect(Effect::OpenFile(files[i].clone()));
            i = i + 1;
            assert(self@.effects =~= old(self)@.effects + open_each(files@.take(i as int)));
        }
        assert(files@.take(files@.len() as int) =~= files@);
    }

    fn active_drop_target(&self, markdown: bool) -> (r: Option<DropTarget>)
        ensures
            r == self@.active_target(markdown),
    {
        match self.active_editor() {
            Some(tab) => {
                let document = if self.tabs[self.active_tab].has_file {
                    Some(self.tabs[self.active_tab].path.clone())
                } else {
                    None
                };
                Some(DropTarget { tab, document, markdown })
            },
            None => None,
        }
    }

    /// Files were dropped on an editor: `target`, or else the active one, which shows a Markdown text
    /// where `active_markdown` says so. Images on a Markdown text are to be linked in it; anything else
    /// is opened.
    pub fn drop_paths_on_editor(&mut self, files: Vec<String>, target: Option<DropTarget>, active_markdown: bool)
        ensures
            ({
                let m = old(self)@;
                let editor = if target is Some { target } else { m.active_target(active_markdown) };
                final(self)@ == if !m.has_slot() {
                    m
                } else if m.slot().remote_host is Some {
                    m.then_do(Effect::Toast(Notice::RemoteDropRefused))
                } else if files@.len() > 0 && all_images(files@) && (editor matches Some(
                    DropTarget { tab, document: Some(document), markdown: true },
                )) {
                    m.then_do(Effect::PlaceImages {
                        tab: editor->0.tab,
                        document: editor->0.document->0,
                        images: files,
                        root: m.slot().root,
                    })
                } else {
                    Model { effects: m.effects + open_each(files@), ..m }
                }
            }),
    {
        if !self.has_active_slot() {
            return;
        }
        if self.projects[self.active].remote_host.is_some() {
            self.effect(Effect::Toast(Notice::RemoteDropRefused));
            return;
        }
        if files.len() == 0 {
            assert(self@.effects =~= self@.effects + open_each(files@));
            return;
        }
        let editor = if target.is_some() {
            target
        } else {
            self.active_drop_target(active_markdown)
        };
        if let Some(DropTarget { tab, document: Some(document), markdown: true }) = editor {
            if are_all_images(&files) {
                let root = self.projects[self.active].root.clone();
                self.effect(Effect::PlaceImages { tab, document, images: files, root });
                return;
            }
        }
        self.open_files(&files);
    }

    /// The images that were dropped on a document of this folder were put in place, or not: inserts
    /// a link for each that was, one to a line.
    pub fn insert_dropped_images(&mut self, tab: u64, document_dir: &str, images: &Vec<PlacedImage>)
        ensures
            final(self)@.effects.len() >= old(self)@.effects.len(),
            inserted(old(self)@, final(self)@, tab, document_dir@, images@),
    {
        let mut links: Vec<String> = Vec::new();
        let mut copied: bool = false;
        let mut first_error: Option<String> = None;
        let mut i: usize = 0;
        proof {
            assert(texts(links@) =~= image_links(images@.take(0), document_dir@));
        }
        while i < images.len()
            invariant
                i <= images@.len(),
                texts(links@) == image_links(images@.take(i as int), document_dir@),
                copied == any_copied(images@.take(i as int)),
                first_error == first_failure(images@.take(i as int)),
            decreases images@.len() - i,
        {
            proof {
                assert(images@.take(i + 1).drop_last() =~= images@.take(i as int));
                assert(images@.take(i + 1).last() == images@[i as int]);
            }
            match &images[i] {
                PlacedImage::Placed { path, copied: was_copied } => {
                    copied = copied || *was_copied;
                    let link = markdown_image_link(path.as_str(), document_dir);
                    proof {
                        texts_push(links@, link);
                    }
                    links.push(link);
                },
                PlacedImage::Failed(error) => {
                    if first_error.is_none() {
                        first_error = Some(error.clone());
                    }
                },
            }
            i = i + 1;
        }
        proof {
            assert(images@.take(images@.len() as int) =~= images@);
            assert(texts(links@).len() == links@.len());
        }
        let ghost before = self@;
        if links.len() > 0 {
            let text = joined(&links, "\n");
            self.effect(Effect::InsertDroppedText { tab, text });
        }
        let ghost mid = self@;
        if copied {
            self.effect(Effect::RefreshExplorer);
            self.effect(Effect::RefreshGitStatus);
        }
        if let Some(error) = first_error {
            self.effect(Effect::ToastText(error));
        }
        assert(after_insert(mid, images@) == self@);
    }
}

/// The links of the images that were put in place.
pub open spec fn image_links(images: Seq<PlacedImage>, document_dir: Seq<char>) -> Seq<Seq<char>>
    decreases images.len(),
{
    if images.len() == 0 {
        Seq::empty()
    } else {
        let before = image_links(images.drop_last(), document_dir);
        match images.last() {
            PlacedImage::Placed { path, .. } => before.push(image_markdown(path@, document_dir)),
            PlacedImage::Failed(_) => before,
        }
    }
}

/// Some image was copied to be put in place.
pub open spec fn any_copied(images: Seq<PlacedImage>) -> bool
    decreases images.len(),
{
    images.len() > 0 && (any_copied(images.drop_last()) || (images.last() matches PlacedImage::Placed {
        copied: true,
        ..
    }))
}

/// Why the first image that failed did.
pub open spec fn first_failure(images: Seq<PlacedImage>) -> Option<String>
    decreases images.len(),
{
    if images.len() == 0 {
        None
    } else {
        match (first_failure(images.drop_last()), images.last()) {
            (Some(error), _) => Some(error),
            (None, PlacedImage::Failed(error)) => Some(error),
            (None, _) => None,
        }
    }
}

/// What follows the insertion: the folder is read again if an image was copied, and the first
/// failure is told.
pub open spec fn after_insert(m: Model, images: Seq<PlacedImage>) -> Model {
    let refreshed = if any_copied(images) {
        m.then_do(Effect::RefreshExplorer).then_do(Effect::RefreshGitStatus)
    } else {
        m
    };
    match first_failure(images) {
        Some(error) => refreshed.then_do(Effect::ToastText(error)),
        None => refreshed,
    }
}

/// The links are inserted as one text, one to a line, where there are any.
pub open spec fn inserted(before: Model, after: Model, tab: u64, document_dir: Seq<char>, images: Seq<PlacedImage>) -> bool {
    let links = image_links(images, document_dir);
    if links.len() == 0 {
        after == after_insert(before, images)
    } else {
        exists|text: String| #![trigger before.then_do(Effect::InsertDroppedText { tab, text })]
            text@ == join(links, "\n"@) && after == after_insert(
                before.then_do(Effect::InsertDroppedText { tab, text }),
                images,
            )
    }
}

/// A name that is tried later has a number at the end of its stem, and the same extension; two tries never
/// give the same name.
pub proof fn tries_differ_in_their_number(name: Seq<char>, a: nat, b: nat)
    requires
        a > 0,
        b > 0,
    ensures
        numbered(name, 0) == name,
        extension(numbered(name, a)) == extension(name),
        stem(numbered(name, a)) == stem(name) + "-"@ + decimal(a),
        numbered(name, a) == numbered(name, b) ==> a == b,
        numbered(name, a) != name,
{
    numbers_stand_before_the_extension(name, a);
    numbers_stand_before_the_extension(name, b);
    decimal_reads_back(a);
    decimal_reads_back(b);
    reveal_strlit("-");
    let lead = (stem(name).len() + 1) as int;
    assert((stem(name) + "-"@ + decimal(a)).skip(lead) =~= decimal(a));
    assert((stem(name) + "-"@ + decimal(b)).skip(lead) =~= decimal(b));
    if numbered(name, a) == name {
        assert(stem(name).len() == stem(numbered(name, a)).len());
    }
}

proof fn numbers_stand_before_the_extension(name: Seq<char>, index: nat)
    requires
        index > 0,
    ensures
        extension(numbered(name, index)) == extension(name),
        stem(numbered(name, index)) == stem(name) + "-"@ + decimal(index),
{
    reveal_strlit("-");
    reveal_strlit(".");
    names_are_stem_and_extension(name);
    the_last_dot_is_the_last(name);
    decimal_reads_back(index);
    let front = stem(name) + "-"@ + decimal(index);
    let whole = numbered(name, index);
    the_last_dot_is_the_last(whole);
    let digits = decimal(index);
    let n = stem(name).len() as int;
    match extension(name) {
        Some(ext) => {
            let dot = front.len() as int;
            assert(whole =~= front.push('.') + ext);
            assert(whole[dot] == '.');
            assert forall|k: int| dot < k < whole.len() implies #[trigger] whole[k] != '.' by {
                if whole[k] == '.' {
                    assert(ext[k - dot - 1] == '.');
                    assert(ext.contains('.'));
                }
            }
            assert(last_dot(whole) == dot);
            assert(whole.take(dot) =~= front);
            assert(whole.skip(dot + 1) =~= ext);
        },
        None => {
            assert(whole =~= front);
            assert forall|k: int| 0 < k < whole.len() implies #[trigger] whole[k] != '.' by {
                if k < n {
                    assert(whole[k] == name[k]);
                } else if k > n {
                    assert(whole[k] == digits[k - n - 1]);
                    assert('0' <= digits[k - n - 1] <= '9');
                }
            }
            assert(last_dot(whole) <= 0);
        },
    }
}

/// Each image that was put in place has its link, in their order; one that failed has none.
pub proof fn each_placed_image_has_its_link(
    a: Seq<PlacedImage>,
    b: Seq<PlacedImage>,
    image: PlacedImage,
    document_dir: Seq<char>,
)
    ensures
        image_links(a + b, document_dir) == image_links(a, document_dir) + image_links(b, document_dir),
        image matches PlacedImage::Placed { path, .. } ==> image_links(seq![image], document_dir) == seq![
            image_markdown(path@, document_dir),
        ],
        image is Failed ==> image_links(seq![image], document_dir).len() == 0,
    decreases b.len(),
{
    reveal_with_fuel(image_links, 2);
    assert(seq![image].drop_last() =~= Seq::empty());
    if let PlacedImage::Placed { path, .. } = image {
        assert(image_links(seq![image], document_dir) =~= seq![image_markdown(path@, document_dir)]);
    }
    if b.len() == 0 {
        assert(a + b =~= a);
        assert(image_links(a, document_dir) + image_links(b, document_dir) =~= image_links(a, document_dir));
    } else {
        assert((a + b).drop_last() =~= a + b.drop_last());
        each_placed_image_has_its_link(a, b.drop_last(), image, document_dir);
        assert(image_links(a + b, document_dir) =~= image_links(a, document_dir) + image_links(b, document_dir));
    }
}

/// Something was copied exactly if one of the images was; what is told is why the first one failed that
/// did, and nothing exactly if none did.
pub proof fn the_first_failure_is_told(images: Seq<PlacedImage>)
    ensures
        any_copied(images) <==> exists|k: int|
            0 <= k < images.len() && (#[trigger] images[k] is Placed) && images[k]->copied,
        match first_failure(images) {
            Some(error) => exists|k: int|
                0 <= k < images.len() && #[trigger] images[k] == PlacedImage::Failed(error) && forall|j: int|
                    0 <= j < k ==> !(#[trigger] images[j] is Failed),
            None => forall|k: int| 0 <= k < images.len() ==> !(#[trigger] images[k] is Failed),
        },
    decreases images.len(),
{
    if images.len() > 0 {
        let rest = images.drop_last();
        let last = images.len() - 1;
        the_first_failure_is_told(rest);
        assert(images[last] == images.last());
        assert forall|k: int| 0 <= k < rest.len() implies rest[k] == #[trigger] images[k] by {}
        if any_copied(rest) {
            let k = choose|k: int| 0 <= k < rest.len() && (#[trigger] rest[k] is Placed) && rest[k]->copied;
            assert(images[k] is Placed && images[k]->copied);
        }
        if let Some(error) = first_failure(rest) {
            let k = choose|k: int|
                0 <= k < rest.len() && #[trigger] rest[k] == PlacedImage::Failed(error) && forall|j: int|
                    0 <= j < k ==> !(#[trigger] rest[j] is Failed);
            assert(images[k] == PlacedImage::Failed(error));
        }
    }
}

/// The links are inserted as one text in the editor that the images were dropped on, before anything else
/// happens; where something was copied the folder is read again, and a failure is told last.
pub proof fn links_are_inserted_once(
    before: Model,
    after: Model,
    tab: u64,
    document_dir: Seq<char>,
    images: Seq<PlacedImage>,
)
    requires
        inserted(before, after, tab, document_dir, images),
    ensures
        ({
            let n = before.effects.len() as int;
            let links = image_links(images, document_dir);
            let copied = exists|k: int| 0 <= k < images.len() && (#[trigger] images[k] is Placed) && images[k]->copied;
            let failed = exists|k: int| 0 <= k < images.len() && (#[trigger] images[k] is Failed);
            &&& after.effects.len() == n + (if links.len() > 0 { 1int } else { 0 }) + (if copied { 2int } else { 0 })
                + (if failed { 1int } else { 0 })
            &&& links.len() > 0 ==> (after.effects[n] matches Effect::InsertDroppedText { tab: t, text } && t == tab
                && text@ == join(links, seq!['\n']))
            &&& failed ==> after.effects.last() is ToastText
            &&& copied ==> after.effects.contains(Effect::RefreshExplorer) && after.effects.contains(
                Effect::RefreshGitStatus,
            )
            &&& after.tabs == before.tabs
        }),
{
    the_first_failure_is_told(images);
    reveal_strlit("\n");
    assert("\n"@ =~= seq!['\n']);
    let links = image_links(images, document_dir);
    let n = (before.effects.len() + if links.len() > 0 { 1nat } else { 0 }) as int;
    if let Some(error) = first_failure(images) {
        let k = choose|k: int| 0 <= k < images.len() && #[trigger] images[k] == PlacedImage::Failed(error);
        assert(images[k] is Failed);
    }
    if any_copied(images) {
        assert(after.effects[n] == Effect::RefreshExplorer);
        assert(after.effects[n + 1] == Effect::RefreshGitStatus);
    }
}

/// Every `c` in the text has a backslash before it.
pub open spec fn escaped(s: Seq<char>, c: char) -> bool {
    forall|i: int| 0 <= i < s.len() && #[trigger] s[i] == c ==> i > 0 && s[i - 1] == '\\'
}

proof fn replaced_ones_are_escaped(s: Seq<char>, c: char)
    requires
        c != '\\',
    ensures
        escaped(replaced(s, c, seq!['\\', c]), c),
    decreases s.len(),
{
    if s.len() > 0 {
        replaced_ones_are_escaped(s.drop_last(), c);
    }
}

proof fn escapes_stay(s: Seq<char>, c: char, d: char)
    requires
        c != '\\',
        d != '\\',
        c != d,
        escaped(s, d),
    ensures
        escaped(replaced(s, c, seq!['\\', c]), d),
        s.len() > 0 && s.last() != c ==> replaced(s, c, seq!['\\', c]).len() > 0 && replaced(
            s,
            c,
            seq!['\\', c],
        ).last() == s.last(),
    decreases s.len(),
{
    if s.len() > 0 {
        let rest = s.drop_last();
        assert forall|i: int| 0 <= i < rest.len() && #[trigger] rest[i] == d implies i > 0 && rest[i - 1] == '\\' by {
            assert(s[i] == d);
        }
        escapes_stay(rest, c, d);
        if s.last() == d {
            assert(s[s.len() - 1] == d);
            assert(rest.last() == '\\');
        }
    }
}

/// Every bracket in the words of an image link is escaped, so that none ends them early.
pub proof fn brackets_are_escaped(image: Seq<char>)
    ensures
        forall|i: int|
            0 <= i < alt_text(image).len() && (#[trigger] alt_text(image)[i] == '[' || alt_text(image)[i] == ']')
                ==> i > 0 && alt_text(image)[i - 1] == '\\',
{
    reveal_strlit("\\[");
    reveal_strlit("\\]");
    assert("\\["@ =~= seq!['\\', '[']);
    assert("\\]"@ =~= seq!['\\', ']']);
    let name = match name_of(image) {
        Some(n) => stem(n),
        None => Seq::empty(),
    };
    let opened = replaced(name, '[', seq!['\\', '[']);
    replaced_ones_are_escaped(name, '[');
    replaced_ones_are_escaped(opened, ']');
    escapes_stay(opened, ']', '[');
}

proof fn replacing_nothing_changes_nothing(s: Seq<char>, c: char, with: Seq<char>)
    requires
        !s.contains(c),
    ensures
        replaced(s, c, with) == s,
    decreases s.len(),
{
    if s.len() > 0 {
        let rest = s.drop_last();
        assert(s[s.len() - 1] == s.last());
        if rest.contains(c) {
            let i = choose|i: int| 0 <= i < rest.len() && rest[i] == c;
            assert(s[i] == c);
        }
        replacing_nothing_changes_nothing(rest, c, with);
        assert(rest.push(s.last()) =~= s);
    } else {
        assert(s =~= Seq::empty());
    }
}

/// The words of an image link are the name of the image without its extension, and its target is the link
/// itself, wherever nothing has to be escaped.
pub proof fn plain_names_are_linked_as_they_are(image: Seq<char>, document_dir: Seq<char>)
    requires
        name_of(image) matches Some(name) && !stem(name).contains('[') && !stem(name).contains(']'),
        !link(document_dir, image).contains(' '),
        !link(document_dir, image).contains('('),
        !link(document_dir, image).contains(')'),
    ensures
        image_markdown(image, document_dir) == seq!['!', '['] + stem(name_of(image)->0) + seq![']', '('] + link(
            document_dir,
            image,
        ) + seq![')'],
{
    reveal_strlit("![");
    reveal_strlit("](");
    reveal_strlit(")");
    let name = stem(name_of(image)->0);
    let target = link(document_dir, image);
    replacing_nothing_changes_nothing(name, '[', "\\["@);
    replacing_nothing_changes_nothing(name, ']', "\\]"@);
    replacing_nothing_changes_nothing(target, ' ', "%20"@);
    replacing_nothing_changes_nothing(target, '(', "%28"@);
    replacing_nothing_changes_nothing(target, ')', "%29"@);
    assert(image_markdown(image, document_dir) =~= seq!['!', '['] + name + seq![']', '('] + target + seq![')']);
}

/// A link goes up as often as there are folders that the two do not share, and then down through what is
/// left; to a file in the same folder it is its name.
pub proof fn links_go_up_no_further_than_needed(from: Seq<Seq<char>>, to: Seq<Seq<char>>, name: Seq<char>)
    ensures
        steps(from, from.push(name)) == seq![name],
        steps(from, to).len() == from.len() + to.len() - 2 * common(from, to),
        forall|i: int|
            0 <= i < from.len() - common(from, to) ==> #[trigger] steps(from, to)[i] == ".."@,
        forall|n: int|
            0 <= n <= from.len() && n <= to.len() && #[trigger] from.take(n) == to.take(n) ==> n <= common(from, to),
{
    common_holds(from, to);
    let below = from.push(name);
    assert forall|i: int| 0 <= i < from.len() implies #[trigger] from[i] == below[i] by {}
    common_is(from, below, from.len() as int);
    assert(steps(from, below) =~= seq![name]);
    assert forall|n: int| 0 <= n <= from.len() && n <= to.len() && #[trigger] from.take(n) == to.take(n) implies n
        <= common(from, to) by {
        let shared = common(from, to);
        if n > shared {
            assert(from.take(n)[shared] == to.take(n)[shared]);
        }
    }
}

/// Files that were dropped are opened one after another, in their order.
pub proof fn dropped_files_are_opened_in_order(files: Seq<String>, k: int)
    requires
        0 <= k < files.len(),
    ensures
        open_each(files).len() == files.len(),
        open_each(files)[k] == Effect::OpenFile(files[k]),
{
}

/// Without a place that they were dropped on, files go to the active editor; it has a document exactly if
/// its text belongs to a file.
pub proof fn the_active_editor_takes_what_is_dropped(m: Model, markdown: bool)
    ensures
        ({
            let tab = m.tabs[m.active_tab as int];
            &&& m.active_target(markdown) is Some <==> m.active_tab < m.tabs.len() && tab.has_editor
            &&& m.active_target(markdown) matches Some(target) ==> target.tab == tab.id && target.markdown == markdown
                && (target.document is Some <==> tab.has_file) && (target.document matches Some(path) ==> path
                == tab.path)
        }),
{
}

/// Files are all images exactly if each of them is.
pub proof fn one_other_file_is_enough(files: Seq<String>, file: String)
    ensures
        all_images(files.push(file)) <==> all_images(files) && image_path(file@),
        all_images(Seq::empty()),
{
    let more = files.push(file);
    if all_images(more) {
        assert(image_path(more[files.len() as int]@));
        assert forall|i: int| 0 <= i < files.len() implies image_path((#[trigger] files[i])@) by {
            assert(more[i] == files[i]);
        }
    }
}

proof fn backslashes_turn_round(s: Seq<char>)
    ensures
        replaced(s, '\\', "/"@).len() == s.len(),
        forall|k: int|
            0 <= k < s.len() ==> #[trigger] replaced(s, '\\', "/"@)[k] == if s[k] == '\\' { '/' } else { s[k] },
    decreases s.len(),
{
    reveal_strlit("/");
    if s.len() > 0 {
        backslashes_turn_round(s.drop_last());
    }
}

/// A link is its steps with a slash between each two; to a file that shares nothing with the folder it is
/// the whole path, written with slashes.
pub proof fn links_are_their_steps(from_dir: Seq<char>, to: Seq<char>)
    ensures
        common(components(from_dir), components(to)) > 0 ==> link(from_dir, to) == join(
            steps(components(from_dir), components(to)),
            seq!['/'],
        ),
        common(components(from_dir), components(to)) == 0 ==> {
            &&& link(from_dir, to).len() == to.len()
            &&& forall|k: int|
                0 <= k < to.len() ==> #[trigger] link(from_dir, to)[k] == if to[k] == '\\' { '/' } else { to[k] }
        },
{
    reveal_strlit("/");
    assert("/"@ =~= seq!['/']);
    backslashes_turn_round(to);
}

} // verus!
