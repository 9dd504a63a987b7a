//! The known-API catalog: calling-convention descriptors read from
//! JSON texts, the rule that places each parameter on the stack, and
//! the structured call record a hit produces.

use vstd::prelude::*;

use crate::bytes::str_eq;

verus! {

/// A value captured from the target.
#[derive(Clone, Debug)]
pub enum Value {
    U32(u32),
    String(String),
}

/// A structured call captured at a known-API hit: the routine's name
/// and its arguments, keyed by parameter name, in declaration order.
#[derive(Debug)]
pub struct KnownCall {
    pub name: String,
    pub args: Vec<(String, Value)>,
}

/// The base register an argument is read relative to.
#[derive(Clone, Copy, Debug, PartialEq, Eq, Structural)]
pub enum ArgBase {
    Esp,
}

/// Where an argument lives: at the base register's value minus the
/// recorded byte offset.
#[derive(Clone, Copy, Debug, PartialEq, Eq, Structural)]
pub enum KnownApiArgLocation {
    Memory(ArgBase, isize),
}

/// How an argument's raw cell is decoded.
#[derive(Clone, Copy, Debug, PartialEq, Eq, Structural)]
pub enum KnownApiArgType {
    U32,
    UTF8String,
    UTF16String,
}

/// One declared parameter of a known routine.
#[derive(Debug)]
pub struct KnownApiArg {
    pub location: KnownApiArgLocation,
    pub t: KnownApiArgType,
    pub name: String,
}

/// One catalogued routine: its name and its declared parameters.
#[derive(Debug)]
pub struct KnownApi {
    pub name: String,
    pub args: Vec<KnownApiArg>,
}

/// The catalog, indexed by routine name.
#[derive(Debug)]
pub struct KnownApiDatabase {
    pub apis: Vec<KnownApi>,
}

/// The argument type a parameter's type name stands for: byte strings
/// and wide strings by their pointer names, 32-bit numbers otherwise.
pub open spec fn spec_arg_type(t: Seq<char>) -> KnownApiArgType {
    if t == "PSTR"@ {
        KnownApiArgType::UTF8String
    } else if t == "PWSTR"@ {
        KnownApiArgType::UTF16String
    } else {
        KnownApiArgType::U32
    }
}

/// A descriptor-built routine: parameter `k` lives at the stack cell
/// `k + 1` below the stack pointer, written as the negative byte
/// offset the capture subtracts.
pub open spec fn api_wf(a: KnownApi) -> bool {
    forall|k: int|
        0 <= k < a.args@.len() ==> (#[trigger] a.args@[k]).location == KnownApiArgLocation::Memory(
            ArgBase::Esp,
            (-4 * (k + 1)) as isize,
        )
}

impl KnownApiArg {
    /// An equal copy.
    pub fn duplicate(&self) -> (r: KnownApiArg)
        ensures
            r == *self,
    {
        KnownApiArg { location: self.location, t: self.t, name: self.name.clone() }
    }
}

impl KnownApi {
    /// An equal copy.
    pub fn duplicate(&self) -> (r: KnownApi)
        ensures
            r.name == self.name,
            r.args@ == self.args@,
    {
        let mut args: Vec<KnownApiArg> = Vec::new();
        let mut i: usize = 0;
        while i < self.args.len()
            invariant
                0 <= i <= self.args@.len(),
                args@ == self.args@.take(i as int),
            decreases self.args@.len() - i,
        {
            args.push(self.args[i].duplicate());
            proof {
                assert(args@ =~= self.args@.take(i + 1));
            }
            i += 1;
        }
        proof {
            assert(self.args@.take(i as int) =~= self.args@);
        }
        KnownApi { name: self.name.clone(), args }
    }
}

/// The argument type a parameter gets: by its type name when the
/// descriptor gives one, a 32-bit number when it gives none.
pub open spec fn spec_param_type(t: Option<String>) -> KnownApiArgType {
    match t {
        Some(s) => spec_arg_type(s@),
        None => KnownApiArgType::U32,
    }
}

/// The routine a descriptor stands for: each parameter keeps its
/// declared name and order, its type follows the type name, and its
/// location is the stack cell its position fixes.
pub fn api_from_descriptor(name: String, params: Vec<(String, Option<String>)>) -> (r: KnownApi)
    requires
        4 * (params@.len() + 1) <= isize::MAX,
    ensures
        r.name == name,
        r.args@.len() == params@.len(),
        forall|k: int|
            0 <= k < params@.len() ==> {
                let a = #[trigger] r.args@[k];
                &&& a.name == params@[k].0
                &&& a.location == KnownApiArgLocation::Memory(ArgBase::Esp, (-4 * (k + 1)) as isize)
                &&& a.t == spec_param_type(params@[k].1)
            },
        api_wf(r),
{
    let n = params.len();
    let mut rem = params;
    let mut args: Vec<KnownApiArg> = Vec::new();
    let ghost orig = rem@;
    let mut k: usize = 0;
    while k < n
        invariant
            0 <= k <= n,
            n == orig.len(),
            4 * (n + 1) <= isize::MAX,
            rem@ == orig.skip(k as int),
            args@.len() == k,
            forall|j: int|
                0 <= j < k ==> {
                    let a = #[trigger] args@[j];
                    &&& a.name == orig[j].0
                    &&& a.location == KnownApiArgLocation::Memory(
                        ArgBase::Esp,
                        (-4 * (j + 1)) as isize,
                    )
                    &&& a.t == spec_param_type(orig[j].1)
                },
        decreases n - k,
    {
        let p = rem.remove(0);
        proof {
            assert(orig.skip(k as int)[0] == orig[k as int]);
            assert(orig.skip(k as int).remove(0) =~= orig.skip(k + 1));
        }
        let off_mag = 4 * (k + 1);
        let off: isize = -(off_mag as isize);
        let t = match &p.1 {
            Some(tn) => {
                if str_eq(tn.as_str(), "PSTR") {
                    KnownApiArgType::UTF8String
                } else if str_eq(tn.as_str(), "PWSTR") {
                    KnownApiArgType::UTF16String
                } else {
                    KnownApiArgType::U32
                }
            },
            None => KnownApiArgType::U32,
        };
        args.push(
            KnownApiArg { location: KnownApiArgLocation::Memory(ArgBase::Esp, off), t, name: p.0 },
        );
        k += 1;
    }
    KnownApi { name, args }
}

/// The absolute address of one argument: the stack pointer's value
/// minus the recorded offset.
pub fn arg_address(esp: u32, location: &KnownApiArgLocation) -> (r: usize)
    requires
        (*location matches KnownApiArgLocation::Memory(_, off) && 0 <= esp - off <= usize::MAX),
    ensures
        (*location matches KnownApiArgLocation::Memory(_, off) && r == esp - off),
{
    match location {
        KnownApiArgLocation::Memory(_, off) => {
            let v: i128 = (esp as i128) - (*off as i128);
            v as usize
        },
    }
}

/// Law: a captured call has exactly one argument per declared
/// parameter, keyed by the parameter's name, in declaration order,
/// carrying the values the host read.
pub fn build_known_call(api: &KnownApi, values: Vec<Value>) -> (r: KnownCall)
    requires
        values@.len() == api.args@.len(),
    ensures
        r.name == api.name,
        r.args@.len() == api.args@.len(),
        forall|k: int|
            0 <= k < r.args@.len() ==> (#[trigger] r.args@[k]).0 == api.args@[k].name
                && r.args@[k].1 == values@[k],
{
    let n = api.args.len();
    let mut rem = values;
    let ghost orig = rem@;
    let mut args: Vec<(String, Value)> = Vec::new();
    let mut k: usize = 0;
    while k < n
        invariant
            0 <= k <= n,
            n == api.args@.len(),
            n == orig.len(),
            rem@ == orig.skip(k as int),
            args@.len() == k,
            forall|j: int|
                0 <= j < k ==> (#[trigger] args@[j]).0 == api.args@[j].name && args@[j].1
                    == orig[j],
        decreases n - k,
    {
        let v = rem.remove(0);
        proof {
            assert(orig.skip(k as int)[0] == orig[k as int]);
            assert(orig.skip(k as int).remove(0) =~= orig.skip(k + 1));
        }
        args.push((api.args[k].name.clone(), v));
        k += 1;
    }
    KnownCall { name: api.name.clone(), args }
}

/// The first catalog entry carrying this name.
pub open spec fn spec_find_api(apis: Seq<KnownApi>, name: Seq<char>) -> Option<int>
    decreases apis.len(),
{
    if apis.len() == 0 {
        None
    } else if apis.first().name@ == name {
        Some(0)
    } else {
        match spec_find_api(apis.drop_first(), name) {
            Some(i) => Some(i + 1),
            None => None,
        }
    }
}

/// Where a scan that mismatched everything before `i` ends.
proof fn lemma_find_api_at(apis: Seq<KnownApi>, name: Seq<char>, i: int)
    requires
        0 <= i <= apis.len(),
        forall|j: int| 0 <= j < i ==> (#[trigger] apis[j]).name@ != name,
        i < apis.len() ==> apis[i].name@ == name,
    ensures
        spec_find_api(apis, name) == if i < apis.len() {
            Some(i)
        } else {
            None::<int>
        },
    decreases apis.len(),
{
    if apis.len() > 0 && i > 0 {
        assert(apis[0].name@ != name);
        let d = apis.drop_first();
        assert forall|j: int| 0 <= j < i - 1 implies (#[trigger] d[j]).name@ != name by {
            assert(d[j] == apis[j + 1]);
        }
        assert(i - 1 < d.len() ==> d[i - 1] == apis[i]);
        lemma_find_api_at(d, name, i - 1);
    }
}

/// The view of an optional type name.
pub open spec fn opt_view(t: Option<String>) -> Option<Seq<char>> {
    match t {
        Some(s) => Some(s@),
        None => None,
    }
}

/// The views of a parameter list: each parameter's name with its
/// optional type name.
pub open spec fn param_views(ps: Seq<(String, Option<String>)>) -> Seq<
    (Seq<char>, Option<Seq<char>>),
> {
    ps.map(|i: int, p: (String, Option<String>)| (p.0@, opt_view(p.1)))
}

/// The views of a descriptor list: each function's name with its
/// parameter views.
pub open spec fn descriptor_views(ds: Seq<(String, Vec<(String, Option<String>)>)>) -> Seq<
    (Seq<char>, Seq<(Seq<char>, Option<Seq<char>>)>),
> {
    ds.map(
        |i: int, d: (String, Vec<(String, Option<String>)>)| (d.0@, param_views(d.1@)),
    )
}

/// The function entries a descriptor text lists: each function with a
/// readable name, paired with its named parameters and their optional
/// type names, in text order. A function of the text alone.
pub uninterp spec fn spec_descriptors_of(text: Seq<char>) -> Seq<
    (Seq<char>, Seq<(Seq<char>, Option<Seq<char>>)>),
>;

/// Relies on `json::parse`, `JsonValue::members`, the `&str` index
/// and `JsonValue::as_str`: the `Functions` entries of a descriptor
/// text, every one with a string `Name`, each with its `Params`
/// entries that have a string `Name`, paired with their
/// `Type`.`Name` when that is a string. The result depends on the
/// text alone.
#[verifier::external_body]
fn parse_descriptor_text(text: &str) -> (r: Vec<(String, Vec<(String, Option<String>)>)>)
    ensures
        descriptor_views(r@) == spec_descriptors_of(text@),
{
    let j = match json::parse(text) {
        Ok(v) => v,
        Err(_) => return Vec::new(),
    };
    j["Functions"].members().filter_map(|f| {
        let name = f["Name"].as_str()?.to_owned();
        let params = f["Params"].members().filter_map(|p| {
            let pname = p["Name"].as_str()?.to_owned();
            Some((pname, p["Type"]["Name"].as_str().map(|t| t.to_owned())))
        }).collect();
        Some((name, params))
    }).collect()
}

/// The descriptor entries of a list of texts, in order.
pub open spec fn spec_all_descriptors(texts: Seq<String>, i: int) -> Seq<
    (Seq<char>, Seq<(Seq<char>, Option<Seq<char>>)>),
>
    decreases texts.len() - i,
{
    if i < 0 || i >= texts.len() {
        Seq::empty()
    } else {
        spec_descriptors_of(texts[i]@) + spec_all_descriptors(texts, i + 1)
    }
}

/// Every listed function declares few enough parameters for the
/// stack-offset arithmetic.
pub open spec fn spec_descriptors_small(
    ds: Seq<(Seq<char>, Seq<(Seq<char>, Option<Seq<char>>)>)>,
) -> bool {
    forall|k: int| 0 <= k < ds.len() ==> (#[trigger] ds[k]).1.len() <= 0x1FFFFFFE
}

/// A catalog entry stands for a descriptor entry: same name, one
/// argument per parameter in order, each keeping its name, placed by
/// the stack rule, typed by its type name.
pub open spec fn api_matches_descriptor(
    a: KnownApi,
    d: (Seq<char>, Seq<(Seq<char>, Option<Seq<char>>)>),
) -> bool {
    &&& a.name@ == d.0
    &&& a.args@.len() == d.1.len()
    &&& forall|k: int|
        0 <= k < d.1.len() ==> {
            let arg = #[trigger] a.args@[k];
            &&& arg.name@ == d.1[k].0
            &&& arg.location == KnownApiArgLocation::Memory(ArgBase::Esp, (-4 * (k + 1)) as isize)
            &&& arg.t == (match d.1[k].1 {
                Some(t) => spec_arg_type(t),
                None => KnownApiArgType::U32,
            })
        }
}

impl KnownApiDatabase {
    /// A catalog read from descriptor texts: one routine per listed
    /// function, in text order, each shaped by the descriptor rule —
    /// provided no function declares an outlandish number of
    /// parameters; every routine in the catalog obeys the stack rule
    /// regardless.
    pub fn from_descriptor_texts(texts: &Vec<String>) -> (r: KnownApiDatabase)
        ensures
            forall|i: int| 0 <= i < r.apis@.len() ==> api_wf(#[trigger] r.apis@[i]),
            ({
                let ds = spec_all_descriptors(texts@, 0);
                spec_descriptors_small(ds) ==> {
                    &&& r.apis@.len() == ds.len()
                    &&& forall|k: int|
                        0 <= k < ds.len() ==> api_matches_descriptor(
                            #[trigger] r.apis@[k],
                            ds[k],
                        )
                }
            }),
    {
        let ghost all = spec_all_descriptors(texts@, 0);
        let mut apis: Vec<KnownApi> = Vec::new();
        let ghost mut done: Seq<(Seq<char>, Seq<(Seq<char>, Option<Seq<char>>)>)> = Seq::empty();
        let mut ti: usize = 0;
        proof {
            assert(done + spec_all_descriptors(texts@, 0) =~= all);
        }
        while ti < texts.len()
            invariant
                0 <= ti <= texts@.len(),
                all == spec_all_descriptors(texts@, 0),
                done + spec_all_descriptors(texts@, ti as int) == all,
                forall|i: int| 0 <= i < apis@.len() ==> api_wf(#[trigger] apis@[i]),
                spec_descriptors_small(all) ==> {
                    &&& apis@.len() == done.len()
                    &&& forall|k: int|
                        0 <= k < done.len() ==> api_matches_descriptor(
                            #[trigger] apis@[k],
                            done[k],
                        )
                },
            decreases texts@.len() - ti,
        {
            let mut rem = parse_descriptor_text(texts[ti].as_str());
            let ghost dviews = spec_descriptors_of(texts@[ti as int]@);
            let ghost mut di: int = 0;
            proof {
                assert(descriptor_views(rem@) == dviews);
                assert(spec_all_descriptors(texts@, ti as int) == dviews + spec_all_descriptors(
                    texts@,
                    ti + 1,
                ));
                assert(dviews.skip(0) =~= dviews);
                assert(done + dviews.skip(di) + spec_all_descriptors(texts@, ti + 1) =~= all);
            }
            while rem.len() > 0
                invariant
                    all == spec_all_descriptors(texts@, 0),
                    0 <= di,
                    di + rem@.len() == dviews.len(),
                    descriptor_views(rem@) == dviews.skip(di),
                    done + dviews.skip(di) + spec_all_descriptors(texts@, ti + 1) == all,
                    done.len() + rem@.len() + spec_all_descriptors(texts@, ti + 1).len()
                        == all.len(),
                    forall|i: int| 0 <= i < apis@.len() ==> api_wf(#[trigger] apis@[i]),
                    spec_descriptors_small(all) ==> {
                        &&& apis@.len() == done.len()
                        &&& forall|k: int|
                            0 <= k < done.len() ==> api_matches_descriptor(
                                #[trigger] apis@[k],
                                done[k],
                            )
                    },
                decreases rem@.len(),
            {
                let ghost rem_before = rem@;
                let d = rem.remove(0);
                let ghost dv = dviews[di];
                proof {
                    assert(descriptor_views(rem_before)[0] == dviews.skip(di)[0]);
                    assert(dviews.skip(di)[0] == dviews[di]);
                    assert(dv == (d.0@, param_views(d.1@)));
                    assert(descriptor_views(rem@) =~= descriptor_views(rem_before).drop_first());
                    assert(descriptor_views(rem@) =~= dviews.skip(di + 1));
                    // the entry about to be consumed stands at
                    // position `done.len()` of the whole list
                    assert(all == (done + dviews.skip(di)) + spec_all_descriptors(
                        texts@,
                        ti + 1,
                    ));
                    assert(all[done.len() as int] == dviews.skip(di)[0]);
                }
                if d.1.len() <= 0x1FFFFFFE {
                    let api = api_from_descriptor(d.0, d.1);
                    apis.push(api);
                    proof {
                        let ghost old_done = done;
                        done = done.push(dv);
                        assert(done + dviews.skip(di + 1) =~= old_done + dviews.skip(di));
                        assert(done + dviews.skip(di + 1) + spec_all_descriptors(texts@, ti + 1)
                            =~= all);
                        if spec_descriptors_small(all) {
                            assert(api_matches_descriptor(api, dv));
                            assert forall|k: int| 0 <= k < done.len() implies
                                api_matches_descriptor(#[trigger] apis@[k], done[k]) by {
                                if k < old_done.len() {
                                    assert(apis@[k] == apis@.drop_last()[k]);
                                    assert(done[k] == old_done[k]);
                                } else {
                                    assert(apis@[k] == api);
                                    assert(done[k] == dv);
                                }
                            }
                        }
                        di = di + 1;
                    }
                } else {
                    proof {
                        // an oversized parameter list defeats the
                        // bound the exact clause assumes
                        assert(all[done.len() as int].1.len() == d.1@.len());
                        assert(!spec_descriptors_small(all));
                        done = done.push(dv);
                        assert(done + dviews.skip(di + 1) + spec_all_descriptors(texts@, ti + 1)
                            =~= all);
                        di = di + 1;
                    }
                }
            }
            proof {
                assert(dviews.skip(di) =~= Seq::empty());
                assert(done + spec_all_descriptors(texts@, ti + 1) =~= all);
            }
            ti += 1;
        }
        proof {
            assert(spec_all_descriptors(texts@, ti as int) =~= Seq::empty());
            assert(done =~= all);
        }
        KnownApiDatabase { apis }
    }

    /// The first catalogued routine carrying this name; of two
    /// routines listed under one name, the earlier stays visible.
    pub fn get_by_name(&self, name: &String) -> (r: Option<&KnownApi>)
        ensures
            match spec_find_api(self.apis@, name@) {
                Some(i) => r matches Some(a) && *a == self.apis@[i],
                None => r is None,
            },
    {
        let mut i: usize = 0;
        while i < self.apis.len()
            invariant
                0 <= i <= self.apis@.len(),
                forall|j: int| 0 <= j < i ==> (#[trigger] self.apis@[j]).name@ != name@,
            decreases self.apis@.len() - i,
        {
            if self.apis[i].name == *name {
                proof {
                    lemma_find_api_at(self.apis@, name@, i as int);
                }
                return Some(&self.apis[i]);
            }
            i += 1;
        }
        proof {
            lemma_find_api_at(self.apis@, name@, i as int);
        }
        None
    }
}

} // verus!
