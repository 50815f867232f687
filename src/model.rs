//! The records that parsing produces, and their mathematical views.
use vstd::prelude::*;

use crate::chars::{chars_of, copy_text, same_chars};

verus! {

/// One `rpc` declaration: its name, input and output type names as written,
/// and whether either direction is marked `stream`.
#[derive(Debug, Clone)]
pub struct ParsedMethod {
    pub name: String,
    pub input_type: String,
    pub output_type: String,
    pub streaming: bool,
}

/// One `service` block: its fully qualified name, the file it came from and
/// its methods in declaration order.
#[derive(Debug, Clone)]
pub struct ParsedService {
    pub fq_service: String,
    pub file: String,
    pub methods: Vec<ParsedMethod>,
}

/// The view of a [`ParsedMethod`].
pub struct MethodSpec {
    pub name: Seq<char>,
    pub input_type: Seq<char>,
    pub output_type: Seq<char>,
    pub streaming: bool,
}

/// The view of a [`ParsedService`].
pub struct ServiceSpec {
    pub fq_service: Seq<char>,
    pub file: Seq<char>,
    pub methods: Seq<MethodSpec>,
}

impl View for ParsedMethod {
    type V = MethodSpec;

    open spec fn view(&self) -> MethodSpec {
        MethodSpec {
            name: self.name@,
            input_type: self.input_type@,
            output_type: self.output_type@,
            streaming: self.streaming,
        }
    }
}

/// The views of a sequence of methods.
pub open spec fn methods_view(ms: Seq<ParsedMethod>) -> Seq<MethodSpec> {
    ms.map_values(|m: ParsedMethod| m@)
}

impl View for ParsedService {
    type V = ServiceSpec;

    open spec fn view(&self) -> ServiceSpec {
        ServiceSpec {
            fq_service: self.fq_service@,
            file: self.file@,
            methods: methods_view(self.methods@),
        }
    }
}

/// The views of a sequence of services.
pub open spec fn services_view(ss: Seq<ParsedService>) -> Seq<ServiceSpec> {
    ss.map_values(|s: ParsedService| s@)
}

impl ParsedMethod {
    /// A copy of this method.
    pub fn copy(&self) -> (r: ParsedMethod)
        ensures
            r@ == self@,
    {
        ParsedMethod {
            name: copy_text(&self.name),
            input_type: copy_text(&self.input_type),
            output_type: copy_text(&self.output_type),
            streaming: self.streaming,
        }
    }
}

impl ParsedService {
    /// A copy of this service.
    pub fn copy(&self) -> (r: ParsedService)
        ensures
            r@ == self@,
    {
        let mut methods: Vec<ParsedMethod> = Vec::new();
        let mut k: usize = 0;
        while k < self.methods.len()
            invariant
                k <= self.methods@.len(),
                methods_view(methods@) == methods_view(self.methods@.take(k as int)),
            decreases self.methods@.len() - k,
        {
            let ghost prev = methods_view(methods@);
            methods.push(self.methods[k].copy());
            assert(methods_view(methods@) =~= prev.push(self.methods@[k as int]@));
            assert(methods_view(self.methods@.take(k + 1)) =~= methods_view(
                self.methods@.take(k as int),
            ).push(self.methods@[k as int]@));
            k = k + 1;
        }
        assert(self.methods@.take(k as int) =~= self.methods@);
        ParsedService {
            fq_service: copy_text(&self.fq_service),
            file: copy_text(&self.file),
            methods,
        }
    }
}

/// Appends copies of `from`'s services to `to`.
pub fn extend_services(to: &mut Vec<ParsedService>, from: &Vec<ParsedService>)
    ensures
        services_view(final(to)@) == services_view(old(to)@) + services_view(from@),
{
    let ghost start = services_view(to@);
    let mut k: usize = 0;
    while k < from.len()
        invariant
            k <= from@.len(),
            services_view(to@) == start + services_view(from@.take(k as int)),
        decreases from@.len() - k,
    {
        let ghost prev = services_view(to@);
        to.push(from[k].copy());
        assert(services_view(to@) =~= prev.push(from@[k as int]@));
        assert(services_view(from@.take(k + 1)) =~= services_view(from@.take(k as int)).push(
            from@[k as int]@,
        ));
        k = k + 1;
    }
    assert(from@.take(k as int) =~= from@);
}

/// Where the method `method` of the first service named `fq` stands: the
/// index of that service and the index of its first method of that name.
pub fn find_method(services: &Vec<ParsedService>, fq: &str, method: &str) -> (r: Option<(usize, usize)>)
    ensures
        match r {
            Some((i, j)) => {
                &&& i < services@.len()
                &&& services@[i as int].fq_service@ == fq@
                &&& forall|t: int| 0 <= t < i ==> (#[trigger] services@[t]).fq_service@ != fq@
                &&& j < services@[i as int].methods@.len()
                &&& services@[i as int].methods@[j as int].name@ == method@
                &&& forall|u: int|
                    0 <= u < j ==> (#[trigger] services@[i as int].methods@[u]).name@ != method@
            },
            None => forall|i: int|
                0 <= i < services@.len() && (#[trigger] services@[i]).fq_service@ == fq@ && (forall|
                    t: int,
                | 0 <= t < i ==> (#[trigger] services@[t]).fq_service@ != fq@) ==> forall|u: int|
                    0 <= u < services@[i].methods@.len() ==> (#[trigger] services@[i].methods@[u]).name@
                        != method@,
        },
{
    let fq_chars = chars_of(fq);
    let m_chars = chars_of(method);
    let mut i: usize = 0;
    while i < services.len()
        invariant
            i <= services@.len(),
            fq_chars@ == fq@,
            m_chars@ == method@,
            forall|t: int| 0 <= t < i ==> (#[trigger] services@[t]).fq_service@ != fq@,
        decreases services@.len() - i,
    {
        let s = &services[i];
        if same_chars(&chars_of(s.fq_service.as_str()), &fq_chars) {
            let mut j: usize = 0;
            while j < s.methods.len()
                invariant
                    i < services@.len(),
                    *s == services@[i as int],
                    s.fq_service@ == fq@,
                    forall|t: int| 0 <= t < i ==> (#[trigger] services@[t]).fq_service@ != fq@,
                    j <= s.methods@.len(),
                    m_chars@ == method@,
                    forall|u: int| 0 <= u < j ==> (#[trigger] s.methods@[u]).name@ != method@,
                decreases s.methods@.len() - j,
            {
                if same_chars(&chars_of(s.methods[j].name.as_str()), &m_chars) {
                    return Some((i, j));
                }
                j = j + 1;
            }
            return None;
        }
        i = i + 1;
    }
    None
}

} // verus!
