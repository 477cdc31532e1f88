//! Planning the delivery of downloaded files to a reader device: where each
//! file goes, which remote directories to create, and the chunks in which a
//! file is written.

use vstd::prelude::*;

use crate::config::{Config, Device};
use crate::error::Ao3Error;
use crate::format::DownloadFormat;
use crate::names::strs;
use crate::series::{work_views, Series};
use crate::text::chars_of;
use crate::work::{filename_of, find_link, Work, WorkView};

verus! {

/// Bytes written to the remote file at a time.
pub const CHUNK_SIZE: usize = 20000;

/// `part` appended to path `base` the way `Path::join` does on Unix: an
/// absolute `part` replaces `base`, and one '/' separates the two.
pub open spec fn path_join(base: Seq<char>, part: Seq<char>) -> Seq<char> {
    if part.len() > 0 && part[0] == '/' {
        part
    } else if base.len() == 0 {
        part
    } else if base.last() == '/' {
        base + part
    } else {
        base + seq!['/'] + part
    }
}

/// Path `base` joined with path `part`.
pub fn join_path(base: &str, part: &str) -> (r: String)
    ensures
        r@ == path_join(base@, part@),
{
    let b = chars_of(base);
    let p = chars_of(part);
    if p.len() > 0 && p[0] == '/' {
        String::from_str(part)
    } else if b.len() == 0 {
        String::from_str(part)
    } else if b[b.len() - 1] == '/' {
        String::from_str(base).concat(part)
    } else {
        proof {
            reveal_strlit("/");
        }
        let r = String::from_str(base).concat("/").concat(part);
        assert(r@ =~= base@ + seq!['/'] + part@);
        r
    }
}

/// The directories from `root` down through `parts`, one level per part,
/// not counting `root` itself: root/p0, root/p0/p1, ...
pub open spec fn dir_chain(root: Seq<char>, parts: Seq<Seq<char>>) -> Seq<Seq<char>>
    decreases parts.len(),
{
    if parts.len() == 0 {
        Seq::empty()
    } else {
        let up = dir_chain(root, parts.drop_last());
        let parent = if up.len() == 0 {
            root
        } else {
            up.last()
        };
        up.push(path_join(parent, parts.last()))
    }
}

proof fn lemma_dir_chain_len(root: Seq<char>, parts: Seq<Seq<char>>)
    ensures
        dir_chain(root, parts).len() == parts.len(),
    decreases parts.len(),
{
    if parts.len() > 0 {
        lemma_dir_chain_len(root, parts.drop_last());
    }
}

/// The remote directories from `root` down through `parts`, root to leaf.
pub fn remote_dirs(root: &str, parts: &Vec<String>) -> (r: Vec<String>)
    ensures
        strs(r@) == dir_chain(root@, strs(parts@)),
{
    let mut r: Vec<String> = Vec::new();
    let mut i: usize = 0;
    while i < parts.len()
        invariant
            i <= parts.len(),
            strs(r@) == dir_chain(root@, strs(parts@).subrange(0, i as int)),
        decreases parts.len() - i,
    {
        let ghost pre = strs(parts@).subrange(0, i + 1);
        assert(pre.drop_last() =~= strs(parts@).subrange(0, i as int));
        assert(pre.last() == parts@[i as int]@);
        proof {
            lemma_dir_chain_len(root@, strs(parts@).subrange(0, i as int));
        }
        let next = if r.len() == 0 {
            join_path(root, parts[i].as_str())
        } else {
            assert(strs(r@).last() == r@[r.len() - 1]@);
            join_path(r[r.len() - 1].as_str(), parts[i].as_str())
        };
        let ghost before = strs(r@);
        r.push(next);
        assert(strs(r@) =~= before.push(next@));
        i = i + 1;
    }
    assert(strs(parts@).subrange(0, i as int) =~= strs(parts@));
    r
}

/// The walk that creates missing remote directories, root to leaf: each
/// directory is looked up in turn; a missing one is created and the walk goes
/// on, and the first one that exists ends the walk.
pub struct DirCreation {
    dirs: Vec<String>,
    next: usize,
    done: bool,
}

pub struct DirCreationView {
    pub dirs: Seq<Seq<char>>,
    pub next: nat,
    pub done: bool,
}

impl View for DirCreation {
    type V = DirCreationView;

    closed spec fn view(&self) -> DirCreationView {
        DirCreationView { dirs: strs(self.dirs@), next: self.next as nat, done: self.done }
    }
}

impl DirCreation {
    pub closed spec fn wf(&self) -> bool {
        self.next <= self.dirs.len()
    }

    /// A walk over `dirs`, root to leaf, that has not started.
    pub fn new(dirs: Vec<String>) -> (r: DirCreation)
        ensures
            r.wf(),
            r@ == (DirCreationView { dirs: strs(dirs@), next: 0, done: false }),
    {
        DirCreation { dirs, next: 0, done: false }
    }

    /// The directory to look up next, or `None` when the walk has ended.
    pub fn pending(&self) -> (r: Option<&String>)
        requires
            self.wf(),
        ensures
            match r {
                Some(d) => !self@.done && self@.next < self@.dirs.len() && d@ == self@.dirs[self@.next as int],
                None => self@.done || self@.next == self@.dirs.len(),
            },
    {
        if self.done || self.next >= self.dirs.len() {
            None
        } else {
            assert(strs(self.dirs@)[self.next as int] == self.dirs@[self.next as int]@);
            Some(&self.dirs[self.next])
        }
    }

    /// Records whether the pending directory exists. When it does not, it is
    /// returned, to be created, and the walk moves to the next directory;
    /// when it does, the walk ends.
    pub fn record(&mut self, exists: bool) -> (r: Option<String>)
        requires
            old(self).wf(),
            !old(self)@.done,
            old(self)@.next < old(self)@.dirs.len(),
        ensures
            final(self).wf(),
            final(self)@ == record_step(old(self)@, exists).0,
            match r {
                Some(d) => record_step(old(self)@, exists).1 == Some(d@),
                None => record_step(old(self)@, exists).1 is None,
            },
    {
        if exists {
            self.done = true;
            None
        } else {
            let d = self.dirs[self.next].clone();
            assert(strs(self.dirs@)[self.next as int] == self.dirs@[self.next as int]@);
            self.next = self.next + 1;
            Some(d)
        }
    }
}

/// One step of the walk: the pending directory exists or not. A missing one
/// is to be created and the walk moves on; an existing one ends the walk.
pub open spec fn record_step(v: DirCreationView, exists: bool) -> (DirCreationView, Option<
    Seq<char>,
>) {
    if exists {
        (DirCreationView { done: true, ..v }, None)
    } else {
        (DirCreationView { next: v.next + 1, ..v }, Some(v.dirs[v.next as int]))
    }
}

/// The directories that a walk in state `v` creates from here on, when each
/// pending directory `d` exists exactly when `ex(d)`.
pub open spec fn walk_creates(v: DirCreationView, ex: spec_fn(Seq<char>) -> bool) -> Seq<Seq<char>>
    decreases v.dirs.len() - v.next + (if v.done {
        0int
    } else {
        1int
    }),
{
    if v.done || v.next >= v.dirs.len() {
        Seq::empty()
    } else {
        let (w, made) = record_step(v, ex(v.dirs[v.next as int]));
        match made {
            Some(d) => seq![d] + walk_creates(w, ex),
            None => walk_creates(w, ex),
        }
    }
}

/// The position of the first of `dirs[k..]` that exists, or the length of
/// `dirs` when none does.
pub open spec fn first_existing(dirs: Seq<Seq<char>>, ex: spec_fn(Seq<char>) -> bool, k: nat) -> nat
    decreases dirs.len() - k,
{
    if k >= dirs.len() {
        dirs.len()
    } else if ex(dirs[k as int]) {
        k
    } else {
        first_existing(dirs, ex, k + 1)
    }
}

proof fn lemma_walk_from(dirs: Seq<Seq<char>>, ex: spec_fn(Seq<char>) -> bool, k: nat)
    requires
        k <= dirs.len(),
    ensures
        k <= first_existing(dirs, ex, k) <= dirs.len(),
        walk_creates(DirCreationView { dirs, next: k, done: false }, ex) == dirs.subrange(
            k as int,
            first_existing(dirs, ex, k) as int,
        ),
    decreases dirs.len() - k,
{
    if k < dirs.len() && !ex(dirs[k as int]) {
        lemma_walk_from(dirs, ex, k + 1);
        assert(dirs.subrange(k as int, first_existing(dirs, ex, k) as int) =~= seq![dirs[k as int]]
            + dirs.subrange((k + 1) as int, first_existing(dirs, ex, k + 1) as int));
    } else {
        if k < dirs.len() {
            assert(walk_creates(DirCreationView { dirs, next: k, done: true }, ex) =~= Seq::<
                Seq<char>,
            >::empty());
        }
        assert(dirs.subrange(k as int, first_existing(dirs, ex, k) as int) =~= Seq::<
            Seq<char>,
        >::empty());
    }
}

/// A walk over `dirs` that starts afresh and learns of each pending
/// directory whether it exists creates exactly the directories before the
/// first existing one, root to leaf, and creates nothing from that one on.
pub proof fn lemma_walk_creates_missing_prefix(dirs: Seq<Seq<char>>, ex: spec_fn(Seq<char>) -> bool)
    ensures
        walk_creates(DirCreationView { dirs, next: 0, done: false }, ex) == dirs.subrange(
            0,
            first_existing(dirs, ex, 0) as int,
        ),
        forall|i: int| 0 <= i < first_existing(dirs, ex, 0) ==> !ex(#[trigger] dirs[i]),
        first_existing(dirs, ex, 0) < dirs.len() ==> ex(dirs[first_existing(dirs, ex, 0) as int]),
{
    lemma_walk_from(dirs, ex, 0);
    lemma_first_existing(dirs, ex, 0);
}

proof fn lemma_first_existing(dirs: Seq<Seq<char>>, ex: spec_fn(Seq<char>) -> bool, k: nat)
    requires
        k <= dirs.len(),
    ensures
        forall|i: int| k <= i < first_existing(dirs, ex, k) ==> !ex(#[trigger] dirs[i]),
        first_existing(dirs, ex, k) < dirs.len() ==> ex(dirs[first_existing(dirs, ex, k) as int]),
    decreases dirs.len() - k,
{
    if k < dirs.len() && !ex(dirs[k as int]) {
        lemma_first_existing(dirs, ex, k + 1);
    }
}

/// The byte ranges in which a file of `len` bytes is written, `chunk` bytes
/// at a time, in order. The end of each range is the progress to report
/// once that range is written.
pub fn chunk_ranges(len: usize, chunk: usize) -> (r: Vec<(usize, usize)>)
    requires
        chunk > 0,
    ensures
        forall|j: int|
            0 <= j < r.len() ==> (#[trigger] r@[j]).0 == j * chunk && r@[j].1 == (if (j + 1)
                * chunk < len {
                (j + 1) * chunk
            } else {
                len as int
            }),
        r.len() * chunk >= len,
        r.len() == 0 || (r.len() - 1) * chunk < len,
{
    let mut r: Vec<(usize, usize)> = Vec::new();
    let mut start: usize = 0;
    while start < len
        invariant
            chunk > 0,
            start <= len,
            start == (if r.len() * chunk < len {
                r.len() * chunk
            } else {
                len as int
            }),
            forall|j: int|
                0 <= j < r.len() ==> (#[trigger] r@[j]).0 == j * chunk && r@[j].1 == (if (j + 1)
                    * chunk < len {
                    (j + 1) * chunk
                } else {
                    len as int
                }),
            r.len() == 0 || (r.len() - 1) * chunk < len,
        decreases len - start,
    {
        let i = r.len();
        assert((i + 1) * chunk == i * chunk + chunk) by (nonlinear_arith);
        let end = if len - start > chunk {
            start + chunk
        } else {
            len
        };
        r.push((start, end));
        start = end;
    }
    r
}

/// Where one file goes: its name, its local path, the remote directories to
/// create, root to leaf, and its remote path.
pub struct FileUpload {
    pub filename: String,
    pub local_path: String,
    pub remote_dirs: Vec<String>,
    pub remote_path: String,
}

pub struct FileUploadView {
    pub filename: Seq<char>,
    pub local_path: Seq<char>,
    pub remote_dirs: Seq<Seq<char>>,
    pub remote_path: Seq<char>,
}

impl View for FileUpload {
    type V = FileUploadView;

    open spec fn view(&self) -> FileUploadView {
        FileUploadView {
            filename: self.filename@,
            local_path: self.local_path@,
            remote_dirs: strs(self.remote_dirs@),
            remote_path: self.remote_path@,
        }
    }
}

/// The delivery of work `w` in format `f` to a device with root folder
/// `root`, from the local folder `download_path`, filed under label `label`
/// and, when `series_id` is given, under the work's series folder; `None`
/// when the work is not part of that series.
pub open spec fn file_upload_of(
    w: WorkView,
    root: Seq<char>,
    download_path: Seq<char>,
    label: Seq<char>,
    f: DownloadFormat,
    series_id: Option<Seq<char>>,
) -> Option<FileUploadView> {
    let name = filename_of(w, f, series_id);
    match series_id {
        Some(sid) => match find_link(w.series, sid) {
            Some(l) => Some(
                FileUploadView {
                    filename: name,
                    local_path: path_join(path_join(download_path, l.series_name), name),
                    remote_dirs: dir_chain(root, seq![label, l.series_name]),
                    remote_path: path_join(
                        path_join(path_join(root, label), l.series_name),
                        name,
                    ),
                },
            ),
            None => None,
        },
        None => Some(
            FileUploadView {
                filename: name,
                local_path: path_join(download_path, name),
                remote_dirs: dir_chain(root, seq![label]),
                remote_path: path_join(path_join(root, label), name),
            },
        ),
    }
}

fn plan_file(
    work: &Work,
    root: &String,
    download_path: &String,
    label: &String,
    format: DownloadFormat,
    series_id: Option<&String>,
) -> (r: Option<FileUpload>)
    ensures
        match r {
            Some(u) => file_upload_of(
                work@,
                root@,
                download_path@,
                label@,
                format,
                match series_id {
                    Some(s) => Some(s@),
                    None => None,
                },
            ) == Some(u@),
            None => file_upload_of(
                work@,
                root@,
                download_path@,
                label@,
                format,
                match series_id {
                    Some(s) => Some(s@),
                    None => None,
                },
            ) is None,
        },
{
    let filename = work.get_filename(format, series_id);
    let mut parts: Vec<String> = Vec::new();
    parts.push(label.clone());
    match series_id {
        Some(sid) => match work.get_series_link(sid) {
            Some(l) => {
                parts.push(l.series_name.clone());
                assert(strs(parts@) =~= seq![label@, l@.series_name]);
                let local = join_path(
                    join_path(download_path.as_str(), l.series_name.as_str()).as_str(),
                    filename.as_str(),
                );
                let remote = join_path(
                    join_path(
                        join_path(root.as_str(), label.as_str()).as_str(),
                        l.series_name.as_str(),
                    ).as_str(),
                    filename.as_str(),
                );
                let dirs = remote_dirs(root.as_str(), &parts);
                Some(
                    FileUpload {
                        filename,
                        local_path: local,
                        remote_dirs: dirs,
                        remote_path: remote,
                    },
                )
            },
            None => None,
        },
        None => {
            assert(strs(parts@) =~= seq![label@]);
            let local = join_path(download_path.as_str(), filename.as_str());
            let remote = join_path(
                join_path(root.as_str(), label.as_str()).as_str(),
                filename.as_str(),
            );
            let dirs = remote_dirs(root.as_str(), &parts);
            Some(
                FileUpload { filename, local_path: local, remote_dirs: dirs, remote_path: remote },
            )
        },
    }
}

/// Plans the delivery of `work` in format `format` to `device`, filed under
/// the work's own label and, when `series_id` is given, under its series
/// folder. Fails with `NotFound` when the work is not part of that series.
pub fn upload_file(
    work: &Work,
    device: &Device,
    config: &Config,
    format: DownloadFormat,
    series_id: Option<&String>,
) -> (r: Result<FileUpload, Ao3Error>)
    ensures
        match r {
            Ok(u) => file_upload_of(
                work@,
                device.download_folder@,
                config.download_path@,
                work@.filtered_fandom,
                format,
                match series_id {
                    Some(s) => Some(s@),
                    None => None,
                },
            ) == Some(u@),
            Err(e) => e == Ao3Error::NotFound && file_upload_of(
                work@,
                device.download_folder@,
                config.download_path@,
                work@.filtered_fandom,
                format,
                match series_id {
                    Some(s) => Some(s@),
                    None => None,
                },
            ) is None,
        },
{
    match plan_file(
        work,
        &device.download_folder,
        &config.download_path,
        work.filtered_fandom(),
        format,
        series_id,
    ) {
        Some(u) => Ok(u),
        None => Err(Ao3Error::NotFound),
    }
}

/// The delivery of work `w` as part of series `sid`, whose folder is named
/// `folder` and is filed under `label`; `None` when the work is not part of
/// that series.
pub open spec fn series_file_of(
    w: WorkView,
    root: Seq<char>,
    download_path: Seq<char>,
    label: Seq<char>,
    folder: Seq<char>,
    f: DownloadFormat,
    sid: Seq<char>,
) -> Option<FileUploadView> {
    let name = filename_of(w, f, Some(sid));
    if find_link(w.series, sid) is Some {
        Some(
            FileUploadView {
                filename: name,
                local_path: path_join(path_join(download_path, folder), name),
                remote_dirs: dir_chain(root, seq![label, folder]),
                remote_path: path_join(path_join(path_join(root, label), folder), name),
            },
        )
    } else {
        None
    }
}

fn plan_series_file(
    work: &Work,
    root: &String,
    download_path: &String,
    label: &String,
    folder: &String,
    format: DownloadFormat,
    sid: &String,
) -> (r: Option<FileUpload>)
    ensures
        match r {
            Some(u) => series_file_of(work@, root@, download_path@, label@, folder@, format, sid@)
                == Some(u@),
            None => series_file_of(
                work@,
                root@,
                download_path@,
                label@,
                folder@,
                format,
                sid@,
            ) is None,
        },
{
    if work.get_series_link(sid).is_none() {
        return None;
    }
    let filename = work.get_filename(format, Some(sid));
    let mut parts: Vec<String> = Vec::new();
    parts.push(label.clone());
    parts.push(folder.clone());
    assert(strs(parts@) =~= seq![label@, folder@]);
    let local = join_path(
        join_path(download_path.as_str(), folder.as_str()).as_str(),
        filename.as_str(),
    );
    let remote = join_path(
        join_path(join_path(root.as_str(), label.as_str()).as_str(), folder.as_str()).as_str(),
        filename.as_str(),
    );
    let dirs = remote_dirs(root.as_str(), &parts);
    Some(FileUpload { filename, local_path: local, remote_dirs: dirs, remote_path: remote })
}

/// The deliveries of works `ws` of series `sid`, into the series folder
/// `folder` filed under `label`, or `None` when one of them is not part of
/// the series.
pub open spec fn series_files_of(
    ws: Seq<WorkView>,
    root: Seq<char>,
    download_path: Seq<char>,
    label: Seq<char>,
    folder: Seq<char>,
    f: DownloadFormat,
    sid: Seq<char>,
) -> Option<Seq<FileUploadView>>
    decreases ws.len(),
{
    if ws.len() == 0 {
        Some(Seq::empty())
    } else {
        match (
            series_files_of(ws.drop_last(), root, download_path, label, folder, f, sid),
            series_file_of(ws.last(), root, download_path, label, folder, f, sid),
        ) {
            (Some(us), Some(u)) => Some(us.push(u)),
            _ => None,
        }
    }
}

/// Where a series goes: the remote directories of its folder, root to leaf,
/// and the delivery of each work, in series order.
pub struct SeriesUpload {
    pub remote_dirs: Vec<String>,
    pub files: Vec<FileUpload>,
}

pub open spec fn upload_views(s: Seq<FileUpload>) -> Seq<FileUploadView> {
    s.map_values(|u: FileUpload| u@)
}

proof fn lemma_series_files_fail_extends(
    ws: Seq<WorkView>,
    root: Seq<char>,
    download_path: Seq<char>,
    label: Seq<char>,
    folder: Seq<char>,
    f: DownloadFormat,
    sid: Seq<char>,
    k: int,
)
    requires
        0 <= k <= ws.len(),
        series_files_of(ws.subrange(0, k), root, download_path, label, folder, f, sid) is None,
    ensures
        series_files_of(ws, root, download_path, label, folder, f, sid) is None,
    decreases ws.len() - k,
{
    if k < ws.len() {
        assert(ws.subrange(0, k + 1).drop_last() =~= ws.subrange(0, k));
        lemma_series_files_fail_extends(ws, root, download_path, label, folder, f, sid, k + 1);
    } else {
        assert(ws.subrange(0, k) =~= ws);
    }
}

/// Plans the delivery of every work of `series` in format `format` to
/// `device`: the series folder, named by the series title, sits under the
/// series's label, and each work goes into it, locally and on the device. Fails with `NotFound` when a work is not part of the series.
pub fn upload_series(series: &Series, device: &Device, config: &Config, format: DownloadFormat) -> (r:
    Result<SeriesUpload, Ao3Error>)
    ensures
        match r {
            Ok(p) => strs(p.remote_dirs@) == dir_chain(
                device.download_folder@,
                seq![series@.filtered_fandom, series@.title],
            ) && series_files_of(
                series@.works,
                device.download_folder@,
                config.download_path@,
                series@.filtered_fandom,
                series@.title,
                format,
                series@.id,
            ) == Some(upload_views(p.files@)),
            Err(e) => e == Ao3Error::NotFound && series_files_of(
                series@.works,
                device.download_folder@,
                config.download_path@,
                series@.filtered_fandom,
                series@.title,
                format,
                series@.id,
            ) is None,
        },
{
    let ghost ws = series@.works;
    let ghost root = device.download_folder@;
    let ghost dp = config.download_path@;
    let ghost label = series@.filtered_fandom;
    let ghost sid = series@.id;
    let ghost folder = series@.title;
    let mut parts: Vec<String> = Vec::new();
    parts.push(series.filtered_fandom().clone());
    parts.push(series.title().clone());
    assert(strs(parts@) =~= seq![series@.filtered_fandom, series@.title]);
    let dirs = remote_dirs(device.download_folder.as_str(), &parts);
    let works = series.works();
    let mut files: Vec<FileUpload> = Vec::new();
    let mut i: usize = 0;
    assert(ws.subrange(0, 0) =~= Seq::<WorkView>::empty());
    assert(upload_views(files@) =~= Seq::<FileUploadView>::empty());
    while i < works.len()
        invariant
            ws == series@.works,
            ws == work_views(works@),
            root == device.download_folder@,
            dp == config.download_path@,
            label == series@.filtered_fandom,
            sid == series@.id,
            folder == series@.title,
            i <= works.len(),
            series_files_of(ws.subrange(0, i as int), root, dp, label, folder, format, sid) == Some(
                upload_views(files@),
            ),
        decreases works.len() - i,
    {
        let ghost pre = ws.subrange(0, i + 1);
        assert(pre.drop_last() =~= ws.subrange(0, i as int));
        assert(pre.last() == works@[i as int]@);
        match plan_series_file(
            &works[i],
            &device.download_folder,
            &config.download_path,
            series.filtered_fandom(),
            series.title(),
            format,
            series.id(),
        ) {
            Some(u) => {
                let ghost before = upload_views(files@);
                files.push(u);
                assert(upload_views(files@) =~= before.push(u@));
            },
            None => {
                proof {
                    lemma_series_files_fail_extends(ws, root, dp, label, folder, format, sid, i + 1);
                }
                return Err(Ao3Error::NotFound);
            },
        }
        i = i + 1;
    }
    assert(ws.subrange(0, i as int) =~= ws);
    Ok(SeriesUpload { remote_dirs: dirs, files })
}

} // verus!
