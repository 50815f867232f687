//! Properties that hold of every input, stated over the models that the
//! functions' contracts use.
use vstd::prelude::*;

use crate::file::{file_services, first_group, package_of, PACKAGE_PATTERN};
use crate::parser::services_from;
use crate::scan::scan_spec;
use crate::store::{after_scan, EntrySpec};

verus! {

/// Where a text declares no package, every service it yields is named by its
/// bare service name.
pub proof fn lemma_no_package_bare_names(text: Seq<char>, file: Seq<char>)
    requires
        first_group(PACKAGE_PATTERN@, text) is None,
    ensures
        file_services(text, package_of(text), file).len() == services_from(text, 0).len(),
        forall|k: int|
            0 <= k < services_from(text, 0).len() ==> (#[trigger] file_services(
                text,
                package_of(text),
                file,
            )[k]).fq_service == services_from(text, 0)[k].0,
{
    assert(package_of(text).len() == 0);
}

/// A root with no definition files scans to no files and no services.
pub proof fn lemma_empty_root(root: Seq<char>)
    ensures
        scan_spec(root, seq![], seq![]).files.len() == 0,
        scan_spec(root, seq![], seq![]).services.len() == 0,
{
}

/// Scanning a registered root again, with its files and their contents
/// unchanged, leaves every root's stored result as the first scan left it.
pub proof fn lemma_rescan_identical(
    roots: Map<Seq<char>, EntrySpec>,
    id: Seq<char>,
    files: Seq<Seq<char>>,
    contents: Seq<Option<Seq<char>>>,
)
    requires
        roots.contains_key(id),
        files.len() == contents.len(),
    ensures
        after_scan(after_scan(roots, id, files, contents), id, files, contents) == after_scan(
            roots,
            id,
            files,
            contents,
        ),
{
    let once = after_scan(roots, id, files, contents);
    assert(after_scan(once, id, files, contents) =~= once);
}

/// Each file of a scan keeps its place: the i-th file of the result is the
/// i-th file found, made relative to the root, whether or not it declares
/// any service.
pub proof fn lemma_files_keep_order(
    root: Seq<char>,
    files: Seq<Seq<char>>,
    contents: Seq<Option<Seq<char>>>,
)
    ensures
        scan_spec(root, files, contents).files.len() == files.len(),
        forall|i: int|
            0 <= i < files.len() ==> #[trigger] scan_spec(root, files, contents).files[i]
                == crate::scan::relative_to(files[i], root),
{
}

} // verus!
