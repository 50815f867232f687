//! Parsing one definition file: its package declaration, and each service
//! with its fully qualified name and its methods.
use vstd::prelude::*;

use crate::chars::{chars_of, string_of};
use crate::model::{services_view, ParsedService, ServiceSpec};
use crate::parser::{methods_from, parse_methods, parse_services, services_from};

verus! {

/// The line-level package declaration: `package`, a dotted name, and `;`.
pub const PACKAGE_PATTERN: &'static str = "(?m)^\\s*package\\s+([A-Za-z0-9_.]+)\\s*;";

/// What the first capture group of `pattern` holds in `text`, by the `regex`
/// crate's leftmost-first matching; `None` where the pattern does not
/// compile, nothing matches or the group takes no part in the match.
pub uninterp spec fn first_group(pattern: Seq<char>, text: Seq<char>) -> Option<Seq<char>>;

/// The view of an optional string.
pub open spec fn opt_view(o: Option<String>) -> Option<Seq<char>> {
    match o {
        Some(s) => Some(s@),
        None => None,
    }
}

/// Relies on `regex::Regex::new`, `Regex::captures` and `Captures::get`: the
/// text of group 1 of the leftmost match of `pattern` in `text`.
#[verifier::external_body]
fn regex_first_group(pattern: &str, text: &str) -> (r: Option<String>)
    ensures
        opt_view(r) == first_group(pattern@, text@),
{
    let re = match regex::Regex::new(pattern) {
        Ok(re) => re,
        Err(_) => return None,
    };
    match re.captures(text) {
        Some(caps) => caps.get(1).map(|m| m.as_str().to_string()),
        None => None,
    }
}

/// The package that `text` declares, empty where it declares none.
pub open spec fn package_of(text: Seq<char>) -> Seq<char> {
    match first_group(PACKAGE_PATTERN@, text) {
        Some(g) => g,
        None => seq![],
    }
}

/// `package.name`, or the bare `name` where the package is empty.
pub open spec fn fq_name(package: Seq<char>, name: Seq<char>) -> Seq<char> {
    if package.len() == 0 {
        name
    } else {
        package + seq!['.'] + name
    }
}

/// The service that a (name, body) pair becomes.
pub open spec fn service_of(package: Seq<char>, file: Seq<char>, p: (Seq<char>, Seq<char>)) -> ServiceSpec {
    ServiceSpec { fq_service: fq_name(package, p.0), file, methods: methods_from(p.1, 0) }
}

/// The services of `text` under the given package, each marked with `file`.
pub open spec fn file_services(text: Seq<char>, package: Seq<char>, file: Seq<char>) -> Seq<ServiceSpec> {
    services_from(text, 0).map_values(|p: (Seq<char>, Seq<char>)| service_of(package, file, p))
}

/// The package that `content` declares, empty where it declares none.
pub fn extract_package(content: &str) -> (r: String)
    ensures
        r@ == package_of(content@),
{
    match regex_first_group(PACKAGE_PATTERN, content) {
        Some(g) => g,
        None => string_of(Vec::new()),
    }
}

fn qualified_name(package: &str, name: &str) -> (r: String)
    ensures
        r@ == fq_name(package@, name@),
{
    let p = chars_of(package);
    let mut n = chars_of(name);
    if p.len() == 0 {
        return string_of(n);
    }
    let mut v = p;
    v.push('.');
    v.append(&mut n);
    assert(v@ =~= package@ + seq!['.'] + name@);
    string_of(v)
}

/// The services of `content` under the given package, each marked with `file`.
pub fn parse_with_package(content: &str, package: &str, file: &str) -> (r: Vec<ParsedService>)
    ensures
        services_view(r@) == file_services(content@, package@, file@),
{
    let pairs = parse_services(content);
    let ghost spec_pairs = services_from(content@, 0);
    let ghost target = file_services(content@, package@, file@);
    let mut out: Vec<ParsedService> = Vec::new();
    let mut k: usize = 0;
    while k < pairs.len()
        invariant
            k <= pairs@.len(),
            spec_pairs == services_from(content@, 0),
            spec_pairs.len() == pairs@.len(),
            forall|t: int| 0 <= t < pairs@.len() ==> (#[trigger] pairs@[t]).0@ == spec_pairs[t].0
                && pairs@[t].1@ == spec_pairs[t].1,
            target == file_services(content@, package@, file@),
            target.len() == spec_pairs.len(),
            services_view(out@) == target.take(k as int),
        decreases pairs@.len() - k,
    {
        let pair = &pairs[k];
        let methods = parse_methods(pair.1.as_str());
        let s = ParsedService {
            fq_service: qualified_name(package, pair.0.as_str()),
            file: string_of(chars_of(file)),
            methods,
        };
        assert(pairs@[k as int].0@ == spec_pairs[k as int].0);
        assert(target[k as int] == service_of(package@, file@, spec_pairs[k as int]));
        assert(s@ == target[k as int]);
        let ghost prev = services_view(out@);
        out.push(s);
        assert(services_view(out@) =~= prev.push(target[k as int]));
        assert(target.take(k + 1) =~= target.take(k as int).push(target[k as int]));
        k = k + 1;
    }
    assert(target.take(k as int) =~= target);
    out
}

/// The services of a definition file's `content`, each marked with `file`.
pub fn parse_file(file: &str, content: &str) -> (r: Vec<ParsedService>)
    ensures
        services_view(r@) == file_services(content@, package_of(content@), file@),
{
    let package = extract_package(content);
    parse_with_package(content, package.as_str(), file)
}

} // verus!
