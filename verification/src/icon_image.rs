//! The fixed pictures on minimized-window icons: which file answers for an application.
use vstd::prelude::*;

use crate::cache::{remembered, Cache};
use crate::geometry::Size;
use crate::paths::{join, joined};
use crate::pidfile::text_of;
use crate::scan::{lowered, same_text, split, split_at_each, texts, to_ascii_lowercase};
use crate::table::{Key, Table};

verus! {

/// The picture every window without one of its own gets.
pub const DEFAULT_IMAGE: &'static str = "default.png";

/// The subdirectory of a data directory the artwork lives in.
pub const IMAGE_SUBDIR: &'static str = "wlrix/images";

/// Resolved paths past which all are dropped. A window can change its application id as often as
/// it likes.
pub const MAX_RESOLVED: usize = 256;

/// An entry of a directory.
pub struct DirEntry {
    pub name: String,
    /// Whether it is a file, or a link that leads to one.
    pub is_file: bool,
}

/// What there is in a directory.
pub struct ImageDir {
    pub path: String,
    pub entries: Vec<DirEntry>,
}

/// Whether there is a file of exactly a name.
pub open spec fn has_file(entries: Seq<DirEntry>, name: Seq<char>) -> bool {
    exists|i: int| 0 <= i < entries.len() && (#[trigger] entries[i]).is_file && entries[i].name@
        == name
}

/// The name of an application's picture.
pub open spec fn picture_name(app_id: Seq<char>) -> Seq<char> {
    app_id + ".png"@
}

/// The first directory's file of exactly the name.
pub open spec fn exact_path(dirs: Seq<ImageDir>, name: Seq<char>) -> Option<Seq<char>>
    decreases dirs.len(),
{
    if dirs.len() == 0 {
        None
    } else {
        match exact_path(dirs.drop_last(), name) {
            Some(path) => Some(path),
            None => if has_file(dirs.last().entries@, name) {
                Some(joined(dirs.last().path@, name))
            } else {
                None
            },
        }
    }
}

/// The first file whose name is the name but for the case of letters.
pub open spec fn cased_entry(entries: Seq<DirEntry>, name: Seq<char>) -> Option<Seq<char>>
    decreases entries.len(),
{
    if entries.len() == 0 {
        None
    } else {
        match cased_entry(entries.drop_last(), name) {
            Some(entry) => Some(entry),
            None => if entries.last().is_file && lowered(entries.last().name@) == lowered(name) {
                Some(entries.last().name@)
            } else {
                None
            },
        }
    }
}

/// The first directory's file whose name is the name but for the case of letters.
pub open spec fn cased_path(dirs: Seq<ImageDir>, name: Seq<char>) -> Option<Seq<char>>
    decreases dirs.len(),
{
    if dirs.len() == 0 {
        None
    } else {
        match cased_path(dirs.drop_last(), name) {
            Some(path) => Some(path),
            None => match cased_entry(dirs.last().entries@, name) {
                Some(entry) => Some(joined(dirs.last().path@, entry)),
                None => None,
            },
        }
    }
}

/// The first directory's default picture.
pub open spec fn default_path(dirs: Seq<ImageDir>) -> Option<Seq<char>>
    decreases dirs.len(),
{
    if dirs.len() == 0 {
        None
    } else {
        match default_path(dirs.drop_last()) {
            Some(path) => Some(path),
            None => if has_file(dirs.last().entries@, DEFAULT_IMAGE@) {
                Some(joined(dirs.last().path@, DEFAULT_IMAGE@))
            } else {
                None
            },
        }
    }
}

/// The file that answers for an application: one of exactly its name in any directory, else one
/// that differs only in case, else a default picture. An application without an id has only the
/// last.
pub open spec fn picture(dirs: Seq<ImageDir>, app_id: Seq<char>) -> Option<Seq<char>> {
    let name = picture_name(app_id);
    if app_id.len() > 0 && exact_path(dirs, name) is Some {
        exact_path(dirs, name)
    } else if app_id.len() > 0 && cased_path(dirs, name) is Some {
        cased_path(dirs, name)
    } else {
        default_path(dirs)
    }
}

/// What a text holds, if there is one.
pub open spec fn held(text: Option<String>) -> Option<Seq<char>> {
    match text {
        Some(text) => Some(text@),
        None => None,
    }
}

proof fn first_found_is_kept(dirs: Seq<ImageDir>, name: Seq<char>, upto: int)
    requires
        0 <= upto <= dirs.len(),
    ensures
        exact_path(dirs.take(upto), name) is Some ==> exact_path(dirs, name) == exact_path(
            dirs.take(upto),
            name,
        ),
        cased_path(dirs.take(upto), name) is Some ==> cased_path(dirs, name) == cased_path(
            dirs.take(upto),
            name,
        ),
        default_path(dirs.take(upto)) is Some ==> default_path(dirs) == default_path(
            dirs.take(upto),
        ),
    decreases dirs.len(),
{
    if upto == dirs.len() {
        assert(dirs.take(upto) =~= dirs);
    } else {
        assert(dirs.drop_last().take(upto) =~= dirs.take(upto));
        first_found_is_kept(dirs.drop_last(), name, upto);
    }
}

proof fn first_entry_is_kept(entries: Seq<DirEntry>, name: Seq<char>, upto: int)
    requires
        0 <= upto <= entries.len(),
        cased_entry(entries.take(upto), name) is Some,
    ensures
        cased_entry(entries, name) == cased_entry(entries.take(upto), name),
    decreases entries.len(),
{
    if upto == entries.len() {
        assert(entries.take(upto) =~= entries);
    } else {
        assert(entries.drop_last().take(upto) =~= entries.take(upto));
        first_entry_is_kept(entries.drop_last(), name, upto);
    }
}

/// The name of an application's picture.
pub fn image_name(app_id: &str) -> (name: String)
    ensures
        name@ == picture_name(app_id@),
{
    let mut name = app_id.to_owned();
    name.append(".png");
    name
}

/// An entry whose name equals `name` ignoring case.
fn matching(entries: &Vec<DirEntry>, name: &str) -> (entry: Option<String>)
    ensures
        held(entry) == cased_entry(entries@, name@),
{
    let lower = to_ascii_lowercase(name);
    let mut i: usize = 0;
    assert(entries@.take(0) =~= Seq::empty());
    while i < entries.len()
        invariant
            i <= entries@.len(),
            lower@ == lowered(name@),
            cased_entry(entries@.take(i as int), name@) is None,
        decreases entries.len() - i,
    {
        let entry = &entries[i];
        i += 1;
        assert(entries@.take(i as int).drop_last() =~= entries@.take(i - 1));
        if entry.is_file {
            let other = to_ascii_lowercase(entry.name.as_str());
            if same_text(other.as_str(), lower.as_str()) {
                proof {
                    first_entry_is_kept(entries@, name@, i as int);
                }
                return Some(entry.name.as_str().to_owned());
            }
        }
    }
    assert(entries@.take(entries@.len() as int) =~= entries@);
    None
}

fn holds_file(entries: &Vec<DirEntry>, name: &str) -> (r: bool)
    ensures
        r == has_file(entries@, name@),
{
    let mut i: usize = 0;
    while i < entries.len()
        invariant
            i <= entries@.len(),
            forall|j: int|
                0 <= j < i ==> !((#[trigger] entries@[j]).is_file && entries@[j].name@ == name@),
        decreases entries.len() - i,
    {
        let entry = &entries[i];
        if entry.is_file && same_text(entry.name.as_str(), name) {
            assert(entries@[i as int].is_file);
            return true;
        }
        i += 1;
    }
    false
}

fn find_exact(dirs: &[ImageDir], name: &str) -> (path: Option<String>)
    ensures
        held(path) == exact_path(dirs@, name@),
{
    let mut i: usize = 0;
    assert(dirs@.take(0) =~= Seq::empty());
    while i < dirs.len()
        invariant
            i <= dirs@.len(),
            exact_path(dirs@.take(i as int), name@) is None,
        decreases dirs.len() - i,
    {
        let dir = &dirs[i];
        i += 1;
        assert(dirs@.take(i as int).drop_last() =~= dirs@.take(i - 1));
        if holds_file(&dir.entries, name) {
            proof {
                first_found_is_kept(dirs@, name@, i as int);
            }
            return Some(join(dir.path.as_str(), name));
        }
    }
    assert(dirs@.take(dirs@.len() as int) =~= dirs@);
    None
}

fn find_cased(dirs: &[ImageDir], name: &str) -> (path: Option<String>)
    ensures
        held(path) == cased_path(dirs@, name@),
{
    let mut i: usize = 0;
    assert(dirs@.take(0) =~= Seq::empty());
    while i < dirs.len()
        invariant
            i <= dirs@.len(),
            cased_path(dirs@.take(i as int), name@) is None,
        decreases dirs.len() - i,
    {
        let dir = &dirs[i];
        i += 1;
        assert(dirs@.take(i as int).drop_last() =~= dirs@.take(i - 1));
        if let Some(entry) = matching(&dir.entries, name) {
            proof {
                first_found_is_kept(dirs@, name@, i as int);
            }
            return Some(join(dir.path.as_str(), entry.as_str()));
        }
    }
    assert(dirs@.take(dirs@.len() as int) =~= dirs@);
    None
}

fn find_default(dirs: &[ImageDir]) -> (path: Option<String>)
    ensures
        held(path) == default_path(dirs@),
{
    let mut i: usize = 0;
    assert(dirs@.take(0) =~= Seq::empty());
    while i < dirs.len()
        invariant
            i <= dirs@.len(),
            default_path(dirs@.take(i as int)) is None,
        decreases dirs.len() - i,
    {
        let dir = &dirs[i];
        i += 1;
        assert(dirs@.take(i as int).drop_last() =~= dirs@.take(i - 1));
        if holds_file(&dir.entries, DEFAULT_IMAGE) {
            proof {
                first_found_is_kept(dirs@, Seq::empty(), i as int);
            }
            return Some(join(dir.path.as_str(), DEFAULT_IMAGE));
        }
    }
    assert(dirs@.take(dirs@.len() as int) =~= dirs@);
    None
}

/// The file for an application in the directories, or the default, or nothing.
pub fn find(dirs: &[ImageDir], app_id: &str) -> (path: Option<String>)
    ensures
        held(path) == picture(dirs@, app_id@),
{
    let name = image_name(app_id);
    if !app_id.is_empty() {
        let exact = find_exact(dirs, name.as_str());
        if exact.is_some() {
            return exact;
        }
        let cased = find_cased(dirs, name.as_str());
        if cased.is_some() {
            return cased;
        }
    }
    find_default(dirs)
}

/// A file of exactly the name wins, wherever it is; one that differs in case wins over the
/// default.
pub proof fn a_better_name_wins(dirs: Seq<ImageDir>, app_id: Seq<char>)
    requires
        app_id.len() > 0,
    ensures
        exact_path(dirs, picture_name(app_id)) is Some ==> picture(dirs, app_id) == exact_path(
            dirs,
            picture_name(app_id),
        ),
        exact_path(dirs, picture_name(app_id)) is None && cased_path(dirs, picture_name(app_id)) is Some
            ==> picture(dirs, app_id) == cased_path(dirs, picture_name(app_id)),
{
}

/// Among files of the name, the one of an earlier directory wins: a later directory changes
/// nothing once one is found.
pub proof fn an_earlier_directory_wins(dirs: Seq<ImageDir>, more: Seq<ImageDir>, name: Seq<char>)
    ensures
        exact_path(dirs, name) is Some ==> exact_path(dirs + more, name) == exact_path(dirs, name),
        cased_path(dirs, name) is Some ==> cased_path(dirs + more, name) == cased_path(dirs, name),
        default_path(dirs) is Some ==> default_path(dirs + more) == default_path(dirs),
{
    let all = dirs + more;
    assert(all.take(dirs.len() as int) =~= dirs);
    first_found_is_kept(all, name, dirs.len() as int);
}

/// What a decoded picture is kept by: its file, and the size that it was scaled to.
pub struct BufferKey {
    pub path: String,
    pub size: Size,
}

impl Key for BufferKey {
    type Of = (Seq<char>, Size);

    open spec fn of(&self) -> (Seq<char>, Size) {
        (self.path@, self.size)
    }

    fn same(&self, other: &Self) -> (r: bool) {
        self.size.w == other.size.w && self.size.h == other.size.h && same_text(
            self.path.as_str(),
            other.path.as_str(),
        )
    }
}

/// The pictures for minimized-window icons, resolved and decoded once.
pub struct IconImages {
    /// The file that answers for each application, or that none does.
    resolved: Cache<String, Option<String>>,
    /// The decoded pictures, by file and size.
    buffers: Table<BufferKey, u64>,
}

/// The pictures as values.
#[verifier::ext_equal]
pub ghost struct Pictures {
    pub resolved: Map<Seq<char>, Option<String>>,
    pub buffers: Map<(Seq<char>, Size), u64>,
}

impl View for IconImages {
    type V = Pictures;

    closed spec fn view(&self) -> Pictures {
        Pictures { resolved: self.resolved@, buffers: self.buffers@ }
    }
}

/// No pictures.
pub open spec fn no_pictures() -> Pictures {
    Pictures { resolved: Map::empty(), buffers: Map::empty() }
}

/// What is to be shown on a tile.
#[derive(Debug, PartialEq, Eq)]
pub enum Wanted {
    /// No picture.
    Nothing,
    /// A picture that is decoded already.
    Ready(u64),
    /// The picture of a file, once it is decoded.
    Decode(String),
}

/// Whether looking an application's picture up comes to this: what is remembered stands, and what
/// is not is found and remembered from then on.
pub open spec fn looked_up(
    before: Map<Seq<char>, Option<String>>,
    after: Map<Seq<char>, Option<String>>,
    path: Option<Seq<char>>,
    dirs: Seq<ImageDir>,
    app_id: Seq<char>,
) -> bool {
    &&& after.dom().contains(app_id)
    &&& path == held(after[app_id])
    &&& if before.dom().contains(app_id) {
        after == before
    } else {
        exists|found: Option<String>|
            held(found) == picture(dirs, app_id) && after == #[trigger] remembered(
                before,
                MAX_RESOLVED as nat,
                app_id,
                found,
            )
    }
}

/// Whether this is what is to be shown for a file at a size: the picture that is kept for them,
/// or one that is yet to be decoded.
pub open spec fn shows(
    wanted: Wanted,
    buffers: Map<(Seq<char>, Size), u64>,
    path: Option<Seq<char>>,
    size: Size,
) -> bool {
    match path {
        Some(path) => if buffers.dom().contains((path, size)) {
            wanted == Wanted::Ready(buffers[(path, size)])
        } else {
            wanted matches Wanted::Decode(file) && file@ == path
        },
        None => wanted is Nothing,
    }
}

/// The decoded pictures once one was decoded: the first that was decoded for a file and a size
/// stays.
pub open spec fn decoded(
    buffers: Map<(Seq<char>, Size), u64>,
    path: Seq<char>,
    size: Size,
    buffer: u64,
) -> Map<(Seq<char>, Size), u64> {
    if buffers.dom().contains((path, size)) {
        buffers
    } else {
        buffers.insert((path, size), buffer)
    }
}

impl IconImages {
    /// Whether the limit is what it should be.
    pub closed spec fn valid(&self) -> bool {
        self.resolved.limit() == MAX_RESOLVED
    }

    pub fn new() -> (images: Self)
        ensures
            images.valid(),
            images@ == no_pictures(),
    {
        IconImages { resolved: Cache::new(MAX_RESOLVED), buffers: Table::new() }
    }

    /// Whether it is remembered which file answers for an application.
    pub fn knows(&self, app_id: &String) -> (r: bool)
        ensures
            r == self@.resolved.dom().contains(app_id@),
    {
        self.resolved.get(app_id).is_some()
    }

    /// The file that answers for an application, remembered from then on. The directories count
    /// only where it is not remembered yet.
    pub fn resolve(&mut self, app_id: &String, dirs: &[ImageDir]) -> (path: Option<String>)
        requires
            old(self).valid(),
        ensures
            final(self).valid(),
            final(self)@.buffers == old(self)@.buffers,
            looked_up(old(self)@.resolved, final(self)@.resolved, held(path), dirs@, app_id@),
    {
        if !self.knows(app_id) {
            let found = find(dirs, app_id.as_str());
            self.resolved.remember(app_id.as_str().to_owned(), found);
        }
        match self.resolved.get(app_id) {
            Some(Some(path)) => Some(path.as_str().to_owned()),
            _ => None,
        }
    }

    /// The picture for an application, scaled to fill `size`; none where there is nothing to fill
    /// or no picture. A picture is decoded once for a file and a size.
    pub fn buffer(&mut self, app_id: &String, size: Size, dirs: &[ImageDir]) -> (wanted: Wanted)
        requires
            old(self).valid(),
        ensures
            final(self).valid(),
            final(self)@.buffers == old(self)@.buffers,
            if size.w <= 0 || size.h <= 0 {
                wanted is Nothing && final(self)@ == old(self)@
            } else {
                exists|path: Option<Seq<char>>| #[trigger]
                    looked_up(
                        old(self)@.resolved,
                        final(self)@.resolved,
                        path,
                        dirs@,
                        app_id@,
                    ) && shows(wanted, old(self)@.buffers, path, size)
            },
    {
        if size.w <= 0 || size.h <= 0 {
            return Wanted::Nothing;
        }
        let path = self.resolve(app_id, dirs);
        let ghost answer = held(path);
        assert(looked_up(old(self)@.resolved, self@.resolved, answer, dirs@, app_id@));
        match path {
            Some(path) => {
                let key = BufferKey { path, size };
                assert(key.of() == (answer->0, size));
                match self.buffers.get(&key) {
                    Some(buffer) => Wanted::Ready(*buffer),
                    None => Wanted::Decode(key.path),
                }
            },
            None => Wanted::Nothing,
        }
    }

    /// Keeps a picture that was decoded from a file and scaled to a size; gives the one that is
    /// kept for them.
    pub fn keep(&mut self, path: String, size: Size, buffer: u64) -> (kept: u64)
        requires
            old(self).valid(),
        ensures
            final(self).valid(),
            final(self)@ == (Pictures {
                buffers: decoded(old(self)@.buffers, path@, size, buffer),
                ..old(self)@
            }),
            final(self)@.buffers.contains_pair((path@, size), kept),
    {
        let key = BufferKey { path, size };
        if let Some(held) = self.buffers.get(&key) {
            return *held;
        }
        self.buffers.insert(key, buffer);
        buffer
    }

    /// Forgets every resolved path and decoded picture, so that a newly dropped file is picked up.
    pub fn clear(&mut self)
        requires
            old(self).valid(),
        ensures
            final(self).valid(),
            final(self)@ == no_pictures(),
    {
        self.resolved.clear();
        self.buffers = Table::new();
    }
}

/// A picture is looked for once: asked again, the same file answers, whatever the directories
/// hold by then.
pub proof fn a_picture_is_looked_for_once(
    before: Map<Seq<char>, Option<String>>,
    after: Map<Seq<char>, Option<String>>,
    again: Map<Seq<char>, Option<String>>,
    path: Option<Seq<char>>,
    path_again: Option<Seq<char>>,
    dirs: Seq<ImageDir>,
    dirs_by_then: Seq<ImageDir>,
    app_id: Seq<char>,
)
    requires
        looked_up(before, after, path, dirs, app_id),
        looked_up(after, again, path_again, dirs_by_then, app_id),
    ensures
        again == after,
        path_again == path,
{
}

/// A picture is decoded once: what was decoded for a file and a size is shown from then on, also
/// where it is decoded a second time, and no other picture is lost.
pub proof fn a_picture_is_decoded_once(
    buffers: Map<(Seq<char>, Size), u64>,
    path: Seq<char>,
    size: Size,
    buffer: u64,
    later: u64,
    other: (Seq<char>, Size),
)
    requires
        !buffers.dom().contains((path, size)),
    ensures
        shows(
            Wanted::Ready(buffer),
            decoded(buffers, path, size, buffer),
            Some(path),
            size,
        ),
        decoded(decoded(buffers, path, size, buffer), path, size, later) == decoded(
            buffers,
            path,
            size,
            buffer,
        ),
        buffers.dom().contains(other) ==> decoded(buffers, path, size, buffer).contains_pair(
            other,
            buffers[other],
        ),
{
}

/// A setting that is set to something.
pub open spec fn set(value: Option<Seq<char>>) -> Option<Seq<char>> {
    match value {
        Some(value) => if value.len() > 0 {
            Some(value)
        } else {
            None
        },
        None => None,
    }
}

/// The user's data directory.
pub open spec fn user_dirs(data_home: Option<Seq<char>>, home: Option<Seq<char>>) -> Seq<Seq<char>> {
    match set(data_home) {
        Some(dir) => seq![dir],
        None => match set(home) {
            Some(home) => seq![joined(joined(home, ".local"@), "share"@)],
            None => Seq::empty(),
        },
    }
}

/// The data directories, most specific first: the user's, then the system's.
pub open spec fn data_dirs(
    data_home: Option<Seq<char>>,
    home: Option<Seq<char>>,
    data_dirs: Option<Seq<char>>,
) -> Seq<Seq<char>> {
    user_dirs(data_home, home) + split_at_each(
        match set(data_dirs) {
            Some(dirs) => dirs,
            None => "/usr/local/share:/usr/share"@,
        },
        ':',
    )
}

/// Directories holding artwork.
pub open spec fn picture_dirs(dirs: Seq<Seq<char>>) -> Seq<Seq<char>> {
    Seq::new(dirs.len(), |i: int| joined(dirs[i], IMAGE_SUBDIR@))
}

fn set_value(value: Option<&str>) -> (r: Option<&str>)
    ensures
        text_of(r) == set(text_of(value)),
{
    match value {
        Some(text) => {
            if text.is_empty() {
                None
            } else {
                value
            }
        },
        None => None,
    }
}

/// Directories holding artwork, most specific first, from the settings of the environment.
pub fn image_dirs(data_home: Option<&str>, home: Option<&str>, system: Option<&str>) -> (dirs: Vec<
    String,
>)
    ensures
        texts(dirs@) == picture_dirs(
            data_dirs(text_of(data_home), text_of(home), text_of(system)),
        ),
{
    let mut bases: Vec<String> = Vec::new();
    if let Some(dir) = set_value(data_home) {
        bases.push(dir.to_owned());
    } else if let Some(home) = set_value(home) {
        bases.push(join(join(home, ".local").as_str(), "share"));
    }
    assert(texts(bases@) =~= user_dirs(text_of(data_home), text_of(home)));
    let ghost user = bases@;
    let mut parts = match set_value(system) {
        Some(dirs) => split(dirs, ':'),
        None => split("/usr/local/share:/usr/share", ':'),
    };
    let ghost listed = parts@;
    bases.append(&mut parts);
    assert(texts(bases@) =~= texts(user) + texts(listed));
    let mut dirs: Vec<String> = Vec::new();
    let mut i: usize = 0;
    while i < bases.len()
        invariant
            i <= bases@.len(),
            dirs@.len() == i,
            forall|j: int| 0 <= j < i ==> (#[trigger] dirs@[j])@ == joined(bases@[j]@, IMAGE_SUBDIR@),
        decreases bases.len() - i,
    {
        dirs.push(join(bases[i].as_str(), IMAGE_SUBDIR));
        i += 1;
    }
    assert(texts(dirs@) =~= picture_dirs(texts(bases@)));
    dirs
}

/// A picture of exactly the application's name is found in the first directory that has one,
/// whatever else there is.
pub proof fn a_picture_of_the_name_is_found(dirs: Seq<ImageDir>, app_id: Seq<char>, d: int, e: int)
    requires
        app_id.len() > 0,
        0 <= d < dirs.len(),
        0 <= e < dirs[d].entries@.len(),
        dirs[d].entries@[e].is_file,
        dirs[d].entries@[e].name@ == app_id + ".png"@,
        forall|j: int, k: int|
            0 <= j < d && 0 <= k < dirs[j].entries@.len() && (#[trigger] dirs[j].entries@[k]).is_file
                ==> dirs[j].entries@[k].name@ != app_id + ".png"@,
    ensures
        picture(dirs, app_id) == Some(joined(dirs[d].path@, app_id + ".png"@)),
{
    let name = app_id + ".png"@;
    let upto = dirs.take(d);
    assert forall|j: int| 0 <= j < upto.len() implies !has_file(
        (#[trigger] upto[j]).entries@,
        name,
    ) by {
        assert(upto[j] == dirs[j]);
        if has_file(upto[j].entries@, name) {
            let k = choose|k: int|
                0 <= k < dirs[j].entries@.len() && (#[trigger] dirs[j].entries@[k]).is_file
                    && dirs[j].entries@[k].name@ == name;
            assert(dirs[j].entries@[k].name@ != name);
        }
    }
    no_directory_has_it(upto, name);
    let with = dirs.take(d + 1);
    assert(with.drop_last() =~= upto);
    assert(with.last() == dirs[d]);
    assert(has_file(dirs[d].entries@, name));
    assert(exact_path(with, name) == Some(joined(dirs[d].path@, name)));
    an_earlier_directory_wins(with, dirs.skip(d + 1), name);
    assert(with + dirs.skip(d + 1) =~= dirs);
}

proof fn no_directory_has_it(dirs: Seq<ImageDir>, name: Seq<char>)
    requires
        forall|j: int| 0 <= j < dirs.len() ==> !has_file((#[trigger] dirs[j]).entries@, name),
    ensures
        exact_path(dirs, name) is None,
    decreases dirs.len(),
{
    if dirs.len() > 0 {
        let fewer = dirs.drop_last();
        assert forall|j: int| 0 <= j < fewer.len() implies !has_file(
            (#[trigger] fewer[j]).entries@,
            name,
        ) by {
            assert(fewer[j] == dirs[j]);
        }
        assert(!has_file(dirs[dirs.len() - 1].entries@, name));
        no_directory_has_it(fewer, name);
    }
}

/// The user's own pictures come before the system's: those below the data directory that is set,
/// or else below `.local/share` in the home directory.
pub proof fn the_users_pictures_come_first(
    dir: Seq<char>,
    home: Seq<char>,
    system: Option<Seq<char>>,
)
    requires
        dir.len() > 0,
        home.len() > 0,
        home.last() != '/',
    ensures
        forall|h: Option<Seq<char>>|
            #![trigger data_dirs(Some(dir), h, system)]
            data_dirs(Some(dir), h, system).len() > 0 && data_dirs(Some(dir), h, system)[0] == dir,
        data_dirs(None, Some(home), system).len() > 0 && data_dirs(None, Some(home), system)[0]
            == home + "/.local/share"@,
        data_dirs(None, None, system) == data_dirs(Some(dir), None, system).skip(1),
{
    reveal_strlit(".local");
    reveal_strlit("share");
    reveal_strlit("/.local/share");
    let below = joined(home, ".local"@);
    assert(below =~= home.push('/') + ".local"@);
    assert(below.last() == 'l');
    assert(joined(below, "share"@) =~= home + "/.local/share"@);
    assert(data_dirs(None, None, system) =~= data_dirs(Some(dir), None, system).skip(1));
}

} // verus!
