//! One scan of a root directory: which files take part, the root-relative
//! form of their paths, and the result assembled from the files' contents.
use vstd::prelude::*;

use crate::chars::{chars_of, matches_at, slice_chars, string_of};
use crate::file::{file_services, package_of, parse_file};
use crate::model::{services_view, ParsedService, ServiceSpec};

verus! {

/// The extension that definition files carry, with its dot.
pub open spec fn proto_suffix() -> Seq<char> {
    seq!['.', 'p', 'r', 'o', 't', 'o']
}

/// Whether the file name at the end of `path` has the extension `proto`:
/// it ends in `.proto`, and that dot is not the first character of the name.
pub open spec fn has_proto_extension(path: Seq<char>) -> bool {
    path.len() > 6 && path.subrange(path.len() - 6, path.len() as int) == proto_suffix()
        && path[path.len() - 7] != '/'
}

/// Whether a path found under a root names a definition file.
pub fn is_proto_file(path: &str) -> (r: bool)
    ensures
        r == has_proto_extension(path@),
{
    let p = chars_of(path);
    let suffix: Vec<char> = vec!['.', 'p', 'r', 'o', 't', 'o'];
    if p.len() <= 6 {
        return false;
    }
    let at = p.len() - 6;
    matches_at(&p, at, &suffix) && p[at - 1] != '/'
}

/// `root` without one trailing `/`.
pub open spec fn trim_root(root: Seq<char>) -> Seq<char> {
    if root.len() > 0 && root.last() == '/' {
        root.drop_last()
    } else {
        root
    }
}

/// `file` relative to `root`: what follows `root/`, the empty path for the
/// root itself, and `file` unchanged where it does not lie beneath `root`.
pub open spec fn relative_to(file: Seq<char>, root: Seq<char>) -> Seq<char> {
    let r = trim_root(root);
    if file == r {
        seq![]
    } else if file.len() > r.len() && file.subrange(0, r.len() as int) == r && file[r.len() as int]
        == '/' {
        file.subrange(r.len() as int + 1, file.len() as int)
    } else {
        file
    }
}

/// The path of `file` relative to `root`; `file` itself where it does not lie
/// beneath `root`.
pub fn relative_path(file: &str, root: &str) -> (r: String)
    ensures
        r@ == relative_to(file@, root@),
{
    let f = chars_of(file);
    let mut rt = chars_of(root);
    if rt.len() > 0 && rt[rt.len() - 1] == '/' {
        rt.pop();
    }
    assert(rt@ =~= trim_root(root@));
    let n = rt.len();
    let under = matches_at(&f, 0, &rt);
    assert(under == (n <= f@.len() && f@.subrange(0, n as int) == rt@));
    if under && f.len() == n {
        assert(f@ =~= rt@);
        return string_of(Vec::new());
    }
    if under && f.len() > n && f[n] == '/' {
        assert(f@ != rt@);
        return string_of(slice_chars(&f, n + 1, f.len()));
    }
    proof {
        if f@ == rt@ {
            assert(f@.subrange(0, n as int) =~= rt@);
        }
    }
    string_of(f)
}

/// The services that one file adds to a scan: none where it could not be
/// read, else those of its text, marked with its path relative to `root`.
pub open spec fn file_part(root: Seq<char>, file: Seq<char>, content: Option<Seq<char>>) -> Seq<ServiceSpec> {
    match content {
        Some(t) => file_services(t, package_of(t), relative_to(file, root)),
        None => seq![],
    }
}

/// The services of a scan over the given files and their contents, file by
/// file in the order given.
pub open spec fn scan_services(root: Seq<char>, files: Seq<Seq<char>>, contents: Seq<Option<Seq<char>>>) -> Seq<ServiceSpec>
    decreases files.len(),
{
    if files.len() == 0 || contents.len() == 0 {
        seq![]
    } else {
        scan_services(root, files.drop_last(), contents.drop_last()) + file_part(
            root,
            files.last(),
            contents.last(),
        )
    }
}

/// The views of a sequence of strings.
pub open spec fn strings_view(v: Seq<String>) -> Seq<Seq<char>> {
    v.map_values(|s: String| s@)
}

/// The views of a sequence of optional strings.
pub open spec fn contents_view(v: Seq<Option<String>>) -> Seq<Option<Seq<char>>> {
    v.map_values(|o: Option<String>| match o {
        Some(s) => Some(s@),
        None => None,
    })
}

/// The files of a scan, relative to `root`, in the order given.
pub open spec fn scan_files(root: Seq<char>, files: Seq<Seq<char>>) -> Seq<Seq<char>> {
    files.map_values(|f: Seq<char>| relative_to(f, root))
}

/// What one scan of a root found: its definition files, relative to the
/// root, and the services they declare.
pub struct ScanResult {
    pub files: Vec<String>,
    pub services: Vec<ParsedService>,
}

/// The view of a [`ScanResult`].
pub struct ScanSpec {
    pub files: Seq<Seq<char>>,
    pub services: Seq<ServiceSpec>,
}

impl View for ScanResult {
    type V = ScanSpec;

    open spec fn view(&self) -> ScanSpec {
        ScanSpec { files: strings_view(self.files@), services: services_view(self.services@) }
    }
}

/// The result of scanning `root`, whose files are `files` and whose contents,
/// where they could be read, are `contents`.
pub open spec fn scan_spec(root: Seq<char>, files: Seq<Seq<char>>, contents: Seq<Option<Seq<char>>>) -> ScanSpec {
    ScanSpec { files: scan_files(root, files), services: scan_services(root, files, contents) }
}

/// Assembles the result of a scan of `root` from the absolute paths of the
/// files found and their contents (`None` for a file that could not be read).
pub fn assemble_scan(root: &str, files_abs: &Vec<String>, contents: &Vec<Option<String>>) -> (r: ScanResult)
    requires
        files_abs@.len() == contents@.len(),
    ensures
        r@ == scan_spec(root@, strings_view(files_abs@), contents_view(contents@)),
{
    let ghost fs = strings_view(files_abs@);
    let ghost cs = contents_view(contents@);
    let mut files: Vec<String> = Vec::new();
    let mut services: Vec<ParsedService> = Vec::new();
    let mut k: usize = 0;
    while k < files_abs.len()
        invariant
            files_abs@.len() == contents@.len(),
            fs == strings_view(files_abs@),
            cs == contents_view(contents@),
            k <= files_abs@.len(),
            strings_view(files@) == scan_files(root@, fs.take(k as int)),
            services_view(services@) == scan_services(root@, fs.take(k as int), cs.take(k as int)),
        decreases files_abs@.len() - k,
    {
        let f = files_abs[k].as_str();
        let rel = relative_path(f, root);
        let ghost fprev = strings_view(files@);
        let ghost sprev = services_view(services@);
        let ghost part = file_part(root@, fs[k as int], cs[k as int]);
        match &contents[k] {
            Some(text) => {
                let mut found = parse_file(rel.as_str(), text.as_str());
                assert(services_view(found@) == part);
                services.append(&mut found);
                assert(services_view(services@) =~= sprev + part);
            },
            None => {
                assert(part == Seq::<ServiceSpec>::empty());
                assert(services_view(services@) =~= sprev + part);
            },
        }
        files.push(rel);
        assert(strings_view(files@) =~= fprev.push(relative_to(fs[k as int], root@)));
        assert(fs.take(k + 1).drop_last() =~= fs.take(k as int));
        assert(cs.take(k + 1).drop_last() =~= cs.take(k as int));
        assert(scan_files(root@, fs.take(k + 1)) =~= scan_files(root@, fs.take(k as int)).push(
            relative_to(fs[k as int], root@),
        ));
        k = k + 1;
    }
    assert(fs.take(k as int) =~= fs);
    assert(cs.take(k as int) =~= cs);
    ScanResult { files, services }
}

} // verus!
