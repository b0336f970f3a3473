//! External utilities and what they offer.
//!
//! A [`Tool`] is a utility known by name, together with the formats that it
//! can compress and decompress.  Each such [`Service`] carries the options the
//! utility has to be called with, and a priority by which competing utilities
//! are ranked.  The [`ToolRegister`] collects tools and answers which of the
//! installed ones is the best for a format.

use vstd::prelude::*;
use vstd::string::*;
use crate::compress_type::{CompressThreads, CompressType, KIND_COUNT};
use crate::text::{decimal, decimal_string, views};
pub use crate::tool_key::ToolKey;

verus! {

/// What a utility is asked to do.
#[derive(Debug, Copy, Clone, PartialEq, Eq, Hash, Structural)]
pub enum Role {
    Compress,
    Decompress,
}

impl Role {
    /// The word for what is done in the role.
    pub open spec fn spec_verb(self) -> Seq<char> {
        match self {
            Role::Compress => "compress"@,
            Role::Decompress => "decompress"@,
        }
    }

    /// The word for what is done in the role.
    pub fn verb(&self) -> (r: &'static str)
        ensures
            r@ == self.spec_verb(),
    {
        match self {
            Role::Compress => "compress",
            Role::Decompress => "decompress",
        }
    }
}

/// A command line option, written without its leading dashes.
#[derive(Debug, Eq, PartialEq, Clone, Hash)]
pub enum ToolOpt {
    /// An option introduced by a single dash.
    Short(String),
    /// An option introduced by two dashes.
    Long(String),
}

/// The contents of a [`ToolOpt`].
pub enum ToolOptView {
    Short(Seq<char>),
    Long(Seq<char>),
}

impl ToolOptView {
    /// The option as it stands on a command line.
    pub open spec fn arg(self) -> Seq<char> {
        match self {
            ToolOptView::Short(s) => seq!['-'] + s,
            ToolOptView::Long(s) => seq!['-', '-'] + s,
        }
    }

    /// The arguments that pass the count `n` to the utility through this
    /// option: a short option takes the count in the same argument, a long
    /// one in an argument of its own.
    pub open spec fn counted(self, n: nat) -> Seq<Seq<char>> {
        match self {
            ToolOptView::Short(s) => seq![seq!['-'] + s + decimal(n)],
            ToolOptView::Long(s) => seq![seq!['-', '-'] + s, decimal(n)],
        }
    }
}

impl View for ToolOpt {
    type V = ToolOptView;

    open spec fn view(&self) -> ToolOptView {
        match self {
            ToolOpt::Short(s) => ToolOptView::Short(s@),
            ToolOpt::Long(s) => ToolOptView::Long(s@),
        }
    }
}

impl ToolOpt {
    pub fn short(opt: &str) -> (r: Self)
        ensures
            r@ == ToolOptView::Short(opt@),
    {
        Self::Short(opt.to_owned())
    }

    pub fn long(opt: &str) -> (r: Self)
        ensures
            r@ == ToolOptView::Long(opt@),
    {
        Self::Long(opt.to_owned())
    }

    /// The option as it stands on a command line.
    pub fn to_string(&self) -> (r: String)
        ensures
            r@ == self@.arg(),
    {
        proof {
            reveal_strlit("-");
            reveal_strlit("--");
        }
        match self {
            ToolOpt::Short(s) => {
                let mut r = String::from_str("-");
                r.append(s.as_str());
                r
            },
            ToolOpt::Long(s) => {
                let mut r = String::from_str("--");
                r.append(s.as_str());
                r
            },
        }
    }

    /// The arguments that hand the count `n` to the utility through this option.
    fn counted(&self, n: usize) -> (r: Vec<String>)
        ensures
            views(r@) == self@.counted(n as nat),
    {
        let mut first = self.to_string();
        let count = decimal_string(n);
        let mut r: Vec<String> = Vec::new();
        match self {
            ToolOpt::Short(_) => {
                first.append(count.as_str());
                r.push(first);
            },
            ToolOpt::Long(_) => {
                r.push(first);
                r.push(count);
            },
        }
        assert(views(r@) =~= self@.counted(n as nat));
        r
    }
}

/// One thing that a utility can do: compress, or decompress, one format.
#[derive(Debug)]
pub struct Service {
    compress_type: CompressType,
    options: Vec<ToolOpt>,
    thread_option: Option<ToolOpt>,
    priority: usize,
}

/// The contents of a [`Service`].
pub struct ServiceView {
    /// The format that is served.
    pub compress_type: CompressType,
    /// The options that are always passed, in the order they were declared.
    pub options: Seq<ToolOptView>,
    /// The option by which a number of threads is requested, if there is one.
    pub thread_option: Option<ToolOptView>,
    /// The rank among the utilities that serve the same format; higher wins.
    pub priority: nat,
}

impl ServiceView {
    /// The arguments that are always passed.
    pub open spec fn fixed_args(self) -> Seq<Seq<char>> {
        self.options.map_values(|o: ToolOptView| o.arg())
    }

    /// The arguments for a call with the thread count `n`: the fixed options
    /// first, then the thread option where both it and a count are there.
    pub open spec fn args(self, n: Option<usize>) -> Seq<Seq<char>> {
        match (self.thread_option, n) {
            (Some(o), Some(n)) => self.fixed_args() + o.counted(n as nat),
            _ => self.fixed_args(),
        }
    }
}

impl View for Service {
    type V = ServiceView;

    closed spec fn view(&self) -> ServiceView {
        ServiceView {
            compress_type: self.compress_type,
            options: self.options@.map_values(|o: ToolOpt| o@),
            thread_option: match self.thread_option {
                Some(o) => Some(o@),
                None => None,
            },
            priority: self.priority as nat,
        }
    }
}

impl Service {
    /// A service for `compress_type` without options and with priority 0.
    pub fn new(compress_type: CompressType) -> (r: Self)
        ensures
            r@ == (ServiceView {
                compress_type,
                options: Seq::empty(),
                thread_option: None,
                priority: 0,
            }),
    {
        let r = Self { compress_type, options: Vec::new(), thread_option: None, priority: 0 };
        assert(r@.options =~= Seq::empty());
        r
    }

    /// Adds an option that is passed on every call.
    pub fn option(self, opt: ToolOpt) -> (r: Self)
        ensures
            r@ == (ServiceView { options: self@.options.push(opt@), ..self@ }),
    {
        let mut r = self;
        r.options.push(opt);
        assert(r@.options =~= self@.options.push(opt@));
        r
    }

    /// Sets the option by which a number of threads is requested.
    pub fn thread_option(self, opt: ToolOpt) -> (r: Self)
        ensures
            r@ == (ServiceView { thread_option: Some(opt@), ..self@ }),
    {
        let mut r = self;
        r.thread_option = Some(opt);
        r
    }

    pub fn priority(self, priority: usize) -> (r: Self)
        ensures
            r@ == (ServiceView { priority: priority as nat, ..self@ }),
    {
        let mut r = self;
        r.priority = priority;
        r
    }

    pub fn compress_type(&self) -> (r: CompressType)
        ensures
            r == self@.compress_type,
    {
        self.compress_type
    }

    /// The rank of this service among those for the same format.
    pub fn rank(&self) -> (r: usize)
        ensures
            r == self@.priority,
    {
        self.priority
    }

    /// The arguments for a call that is to use `n` threads, or the
    /// utility's own default where `n` is `None`.
    pub fn args_for(&self, n: Option<usize>) -> (r: Vec<String>)
        ensures
            views(r@) == self@.args(n),
    {
        let mut v: Vec<String> = Vec::new();
        let mut i: usize = 0;
        while i < self.options.len()
            invariant
                i <= self.options.len(),
                v.len() == i,
                forall|j: int| 0 <= j < i ==> v[j]@ == self.options[j]@.arg(),
            decreases self.options.len() - i,
        {
            v.push(self.options[i].to_string());
            i += 1;
        }
        assert(views(v@) =~= self@.fixed_args());
        match (&self.thread_option, n) {
            (Some(o), Some(n)) => {
                let ghost fixed = v@;
                let mut extra = o.counted(n);
                v.append(&mut extra);
                assert(views(v@) =~= views(fixed) + o@.counted(n as nat));
            },
            _ => {},
        }
        v
    }

    /// The arguments for a call under the thread preference `threads`.
    ///
    /// The number of cores is asked of the machine where the preference calls
    /// for it, so the count that is passed is then whatever the machine says.
    pub fn args(&self, threads: CompressThreads) -> (r: Vec<String>)
        ensures
            exists|n: Option<usize>| threads.admits(n) && views(r@) == #[trigger] self@.args(n),
    {
        let n = threads.n_threads();
        self.args_for(n)
    }
}

/// The contents of a list of services.
pub open spec fn service_views(services: Seq<Service>) -> Seq<ServiceView> {
    services.map_values(|s: Service| s@)
}

/// The position of the service that was declared last for `kind`, if any
/// was: where a format is declared twice, the later declaration replaces
/// the earlier one.
pub open spec fn last_service(services: Seq<ServiceView>, kind: CompressType) -> Option<int>
    decreases services.len(),
{
    if services.len() == 0 {
        None
    } else if services.last().compress_type == kind {
        Some(services.len() - 1)
    } else {
        last_service(services.drop_last(), kind)
    }
}

/// Where `last_service` finds a service, it is one for the format asked for.
pub proof fn lemma_last_service_serves(services: Seq<ServiceView>, kind: CompressType)
    ensures
        last_service(services, kind) matches Some(i) ==> 0 <= i < services.len()
            && services[i].compress_type == kind,
    decreases services.len(),
{
    if services.len() > 0 && services.last().compress_type != kind {
        lemma_last_service_serves(services.drop_last(), kind);
    }
}

/// A format that some service serves has a last service.
pub proof fn lemma_served_has_last(services: Seq<ServiceView>, kind: CompressType, j: int)
    requires
        0 <= j < services.len(),
        services[j].compress_type == kind,
    ensures
        last_service(services, kind) is Some,
    decreases services.len(),
{
    if services.last().compress_type != kind {
        lemma_served_has_last(services.drop_last(), kind, j);
    }
}

/// The services of a tool, by role.
#[derive(Debug)]
struct ToolMap {
    decompress: Vec<Service>,
    compress: Vec<Service>,
}

/// The service declared last for `ct` among `services`.
fn find_last(services: &Vec<Service>, ct: CompressType) -> (r: Option<&Service>)
    ensures
        match last_service(service_views(services@), ct) {
            Some(i) => r matches Some(s) && *s == services[i],
            None => r is None,
        },
{
    let ghost views = service_views(services@);
    let mut i = services.len();
    assert(views.take(i as int) =~= views);
    while i > 0
        invariant
            i <= services.len(),
            views == service_views(services@),
            last_service(views, ct) == last_service(views.take(i as int), ct),
        decreases i,
    {
        i -= 1;
        assert(views.take(i + 1).drop_last() =~= views.take(i as int));
        if services[i].compress_type() == ct {
            return Some(&services[i]);
        }
    }
    None
}

impl ToolMap {
    fn new() -> (r: Self)
        ensures
            r.decompress@.len() == 0,
            r.compress@.len() == 0,
    {
        ToolMap { decompress: Vec::new(), compress: Vec::new() }
    }

    fn add_decompress(&mut self, service: Service)
        ensures
            final(self).decompress@ == old(self).decompress@.push(service),
            final(self).compress@ == old(self).compress@,
    {
        self.decompress.push(service);
    }

    fn add_compress(&mut self, service: Service)
        ensures
            final(self).compress@ == old(self).compress@.push(service),
            final(self).decompress@ == old(self).decompress@,
    {
        self.compress.push(service);
    }

    fn get_decompress(&self, ct: CompressType) -> (r: Option<&Service>)
        ensures
            match last_service(service_views(self.decompress@), ct) {
                Some(i) => r matches Some(s) && *s == self.decompress[i],
                None => r is None,
            },
    {
        find_last(&self.decompress, ct)
    }

    fn get_compress(&self, ct: CompressType) -> (r: Option<&Service>)
        ensures
            match last_service(service_views(self.compress@), ct) {
                Some(i) => r matches Some(s) && *s == self.compress[i],
                None => r is None,
            },
    {
        find_last(&self.compress, ct)
    }

    fn decompress_services(&self) -> (r: &[Service])
        ensures
            r@ == self.decompress@,
    {
        self.decompress.as_slice()
    }

    fn compress_services(&self) -> (r: &[Service])
        ensures
            r@ == self.compress@,
    {
        self.compress.as_slice()
    }
}

/// A utility, known by the name of its executable.
#[derive(Debug)]
pub struct Tool {
    name: String,
    inner: ToolMap,
    path: Option<String>,
}

/// The contents of a [`Tool`].
pub struct ToolView {
    /// The name of the executable.
    pub name: Seq<char>,
    /// What it can decompress, in the order of declaration.
    pub decompress: Seq<ServiceView>,
    /// What it can compress, in the order of declaration.
    pub compress: Seq<ServiceView>,
    /// Where the executable was found, if it was.
    pub path: Option<Seq<char>>,
}

impl ToolView {
    /// The services declared for `role`.
    pub open spec fn services(self, role: Role) -> Seq<ServiceView> {
        match role {
            Role::Compress => self.compress,
            Role::Decompress => self.decompress,
        }
    }

    /// The tool declares a service of rank `priority` for `kind` in `role`.
    pub open spec fn offers(self, role: Role, kind: CompressType, priority: nat) -> bool {
        exists|j: int|
            0 <= j < self.services(role).len() && (#[trigger] self.services(role)[j]).compress_type
                == kind && self.services(role)[j].priority == priority
    }

    /// The service by which the tool is called for `kind` in `role`.
    pub open spec fn service(self, role: Role, kind: CompressType) -> Option<ServiceView> {
        match last_service(self.services(role), kind) {
            Some(i) => Some(self.services(role)[i]),
            None => None,
        }
    }
}

impl View for Tool {
    type V = ToolView;

    closed spec fn view(&self) -> ToolView {
        ToolView {
            name: self.name@,
            decompress: service_views(self.inner.decompress@),
            compress: service_views(self.inner.compress@),
            path: match self.path {
                Some(p) => Some(p@),
                None => None,
            },
        }
    }
}

impl Tool {
    /// A tool of the given name that offers nothing yet, and whose
    /// executable has not been looked for.
    pub fn new(name: &str) -> (r: Self)
        ensures
            r@ == (ToolView {
                name: name@,
                decompress: Seq::empty(),
                compress: Seq::empty(),
                path: None,
            }),
    {
        let r = Self { name: name.to_owned(), inner: ToolMap::new(), path: None };
        assert(r@.decompress =~= Seq::empty());
        assert(r@.compress =~= Seq::empty());
        r
    }

    /// Declares that the tool can decompress as `service` says.
    pub fn decompress(self, service: Service) -> (r: Self)
        ensures
            r@ == (ToolView { decompress: self@.decompress.push(service@), ..self@ }),
    {
        let mut r = self;
        r.inner.add_decompress(service);
        assert(r@.decompress =~= self@.decompress.push(service@));
        r
    }

    /// Declares that the tool can compress as `service` says.
    pub fn compress(self, service: Service) -> (r: Self)
        ensures
            r@ == (ToolView { compress: self@.compress.push(service@), ..self@ }),
    {
        let mut r = self;
        r.inner.add_compress(service);
        assert(r@.compress =~= self@.compress.push(service@));
        r
    }

    pub fn name(&self) -> (r: &str)
        ensures
            r@ == self@.name,
    {
        self.name.as_str()
    }

    /// The service by which the tool decompresses `ct`, if it does.
    pub fn get_decompress(&self, ct: CompressType) -> (r: Option<&Service>)
        ensures
            r is Some == self@.service(Role::Decompress, ct) is Some,
            r matches Some(s) ==> self@.service(Role::Decompress, ct) == Some(s@),
    {
        proof {
            lemma_last_service_serves(self@.decompress, ct);
        }
        self.inner.get_decompress(ct)
    }

    /// The service by which the tool compresses `ct`, if it does.
    pub fn get_compress(&self, ct: CompressType) -> (r: Option<&Service>)
        ensures
            r is Some == self@.service(Role::Compress, ct) is Some,
            r matches Some(s) ==> self@.service(Role::Compress, ct) == Some(s@),
    {
        proof {
            lemma_last_service_serves(self@.compress, ct);
        }
        self.inner.get_compress(ct)
    }

    pub fn decompress_services(&self) -> (r: &[Service])
        ensures
            service_views(r@) == self@.decompress,
    {
        self.inner.decompress_services()
    }

    pub fn compress_services(&self) -> (r: &[Service])
        ensures
            service_views(r@) == self@.compress,
    {
        self.inner.compress_services()
    }

    /// Records where the executable of the tool was found, or that it was
    /// not found.
    pub fn add_path(&mut self, path: Option<String>)
        ensures
            final(self)@ == (ToolView {
                path: match path {
                    Some(p) => Some(p@),
                    None => None,
                },
                ..old(self)@
            }),
    {
        self.path = path;
    }

    /// Where the executable was found, if it was.
    pub fn path(&self) -> (r: Option<&str>)
        ensures
            r is Some == self@.path is Some,
            r matches Some(p) ==> self@.path == Some(p@),
    {
        match &self.path {
            Some(p) => Some(p.as_str()),
            None => None,
        }
    }
}

/// The contents of a list of tools.
pub open spec fn tool_views(tools: Seq<Tool>) -> Seq<ToolView> {
    tools.map_values(|t: Tool| t@)
}

/// The tool at position `i` can be used for `kind` in `role`: its executable
/// was found, and it declares a service of rank `priority`.
pub open spec fn eligible(
    tools: Seq<ToolView>,
    role: Role,
    kind: CompressType,
    i: int,
    priority: nat,
) -> bool {
    0 <= i < tools.len() && tools[i].path is Some && tools[i].offers(role, kind, priority)
}

/// The tool at position `i` is the one to use for `kind` in `role`: it can
/// be used, with rank `priority`; no tool can be used with a higher rank;
/// and no tool registered before it can be used with the same rank.
pub open spec fn is_best(
    tools: Seq<ToolView>,
    role: Role,
    kind: CompressType,
    i: int,
    priority: nat,
) -> bool {
    &&& eligible(tools, role, kind, i, priority)
    &&& forall|j: int, q: nat| #[trigger]
        eligible(tools, role, kind, j, q) ==> q < priority || (q == priority && i <= j)
}

/// The tool at position `i` is the one to use for `kind` in `role`.
pub open spec fn is_best_tool(tools: Seq<ToolView>, role: Role, kind: CompressType, i: int) -> bool {
    exists|p: nat| is_best(tools, role, kind, i, p)
}

/// The position of the tool to use for `kind` in `role`, if there is one.
pub open spec fn best_tool(tools: Seq<ToolView>, role: Role, kind: CompressType) -> Option<int> {
    if exists|i: int| is_best_tool(tools, role, kind, i) {
        Some(choose|i: int| is_best_tool(tools, role, kind, i))
    } else {
        None
    }
}

/// There is at most one best tool, and it is best with one rank only.
pub proof fn lemma_best_tool_unique(
    tools: Seq<ToolView>,
    role: Role,
    kind: CompressType,
    i: int,
    p: nat,
    j: int,
    q: nat,
)
    requires
        is_best(tools, role, kind, i, p),
        is_best(tools, role, kind, j, q),
    ensures
        i == j,
        p == q,
{
    assert(eligible(tools, role, kind, i, p));
    assert(eligible(tools, role, kind, j, q));
}

/// The tool that `is_best` singles out is the one that `best_tool` names.
pub proof fn lemma_best_tool_is(
    tools: Seq<ToolView>,
    role: Role,
    kind: CompressType,
    i: int,
    p: nat,
)
    requires
        is_best(tools, role, kind, i, p),
    ensures
        best_tool(tools, role, kind) == Some(i),
{
    assert(is_best_tool(tools, role, kind, i));
    let j = choose|j: int| is_best_tool(tools, role, kind, j);
    let q = choose|q: nat| is_best(tools, role, kind, j, q);
    lemma_best_tool_unique(tools, role, kind, i, p, j, q);
}

/// The tool that `best_tool` names can be used: its executable was found,
/// and it has a service for the format.
pub proof fn lemma_best_tool_usable(tools: Seq<ToolView>, role: Role, kind: CompressType)
    ensures
        best_tool(tools, role, kind) matches Some(i) ==> 0 <= i < tools.len() && tools[i].path
            is Some && tools[i].service(role, kind) is Some,
{
    if best_tool(tools, role, kind) is Some {
        let i = best_tool(tools, role, kind)->0;
        let p = choose|p: nat| is_best(tools, role, kind, i, p);
        assert(eligible(tools, role, kind, i, p));
        let j = choose|j: int|
            0 <= j < tools[i].services(role).len() && (#[trigger] tools[i].services(role)[j]).compress_type
                == kind && tools[i].services(role)[j].priority == p;
        lemma_served_has_last(tools[i].services(role), kind, j);
    }
}

/// Where no tool can be used for a format, none is named for it.
pub proof fn lemma_best_tool_needs_eligible(tools: Seq<ToolView>, role: Role, kind: CompressType)
    requires
        forall|i: int, p: nat| !eligible(tools, role, kind, i, p),
    ensures
        best_tool(tools, role, kind) is None,
{
}

/// The highest rank among the services for `kind`, if there is one.
spec fn top_rank(services: Seq<ServiceView>, kind: CompressType) -> Option<nat>
    decreases services.len(),
{
    if services.len() == 0 {
        None
    } else {
        let rest = top_rank(services.drop_last(), kind);
        let s = services.last();
        if s.compress_type == kind && (rest is None || rest->0 < s.priority) {
            Some(s.priority)
        } else {
            rest
        }
    }
}

/// `top_rank` is the rank of a service for the format, and no service for
/// the format has a higher one.
proof fn lemma_top_rank(services: Seq<ServiceView>, kind: CompressType)
    ensures
        match top_rank(services, kind) {
            Some(m) => (exists|j: int|
                0 <= j < services.len() && (#[trigger] services[j]).compress_type == kind
                    && services[j].priority == m) && (forall|j: int|
                0 <= j < services.len() && (#[trigger] services[j]).compress_type == kind
                    ==> services[j].priority <= m),
            None => forall|j: int|
                0 <= j < services.len() ==> (#[trigger] services[j]).compress_type != kind,
        },
    decreases services.len(),
{
    if services.len() > 0 {
        let front = services.drop_last();
        let last = services.len() - 1;
        lemma_top_rank(front, kind);
        assert forall|j: int| 0 <= j < front.len() implies #[trigger] front[j] == services[j] by {}
        match top_rank(services, kind) {
            Some(m) => {
                if top_rank(front, kind) == Some(m) {
                    let j = choose|j: int|
                        0 <= j < front.len() && (#[trigger] front[j]).compress_type == kind
                            && front[j].priority == m;
                    assert(services[j].compress_type == kind && services[j].priority == m);
                } else {
                    assert(services[last].compress_type == kind && services[last].priority == m);
                }
                assert forall|j: int|
                    0 <= j < services.len() && (#[trigger] services[j]).compress_type
                        == kind implies services[j].priority <= m by {
                    if j < last {
                        assert(front[j].compress_type == kind);
                    }
                }
            },
            None => {
                assert forall|j: int| 0 <= j < services.len() implies (#[trigger] services[j]).compress_type
                    != kind by {
                    if j < last {
                        assert(front[j].compress_type != kind);
                    }
                }
            },
        }
    }
}

/// The position of the best tool among the first `n`.
spec fn best_among(tools: Seq<ToolView>, role: Role, kind: CompressType, n: int) -> Option<int>
    decreases n,
{
    if n <= 0 {
        None
    } else {
        let before = best_among(tools, role, kind, n - 1);
        let rank = top_rank(tools[n - 1].services(role), kind);
        if tools[n - 1].path is Some && rank is Some && (before is None || top_rank(
            tools[before->0].services(role),
            kind,
        )->0 < rank->0) {
            Some(n - 1)
        } else {
            before
        }
    }
}

/// `best_among` names the best of the first `n` tools, and names none only
/// where none of them can be used.
proof fn lemma_best_among(tools: Seq<ToolView>, role: Role, kind: CompressType, n: int)
    requires
        0 <= n <= tools.len(),
    ensures
        match best_among(tools, role, kind, n) {
            Some(i) => 0 <= i < n && top_rank(tools[i].services(role), kind) is Some && is_best(
                tools.take(n),
                role,
                kind,
                i,
                top_rank(tools[i].services(role), kind)->0,
            ),
            None => forall|j: int, q: nat| !eligible(tools.take(n), role, kind, j, q),
        },
    decreases n,
{
    if n > 0 {
        lemma_best_among(tools, role, kind, n - 1);
        let shorter = tools.take(n - 1);
        let longer = tools.take(n);
        let before = best_among(tools, role, kind, n - 1);
        let last = tools[n - 1];
        let rank = top_rank(last.services(role), kind);
        lemma_top_rank(last.services(role), kind);
        assert forall|j: int, q: nat| #[trigger] eligible(longer, role, kind, j, q) implies (j
            < n - 1 && eligible(shorter, role, kind, j, q)) || (j == n - 1 && last.path is Some
            && rank is Some && q <= rank->0) by {
            if j < n - 1 {
                assert(shorter[j] == longer[j]);
            } else {
                assert(longer[j] == last);
                let k = choose|k: int|
                    0 <= k < last.services(role).len() && (#[trigger] last.services(
                        role,
                    )[k]).compress_type == kind && last.services(role)[k].priority == q;
            }
        }
        match best_among(tools, role, kind, n) {
            Some(i) => {
                let p = top_rank(tools[i].services(role), kind)->0;
                if i == n - 1 {
                    assert(longer[i] == last);
                    assert(last.offers(role, kind, p));
                    assert(eligible(longer, role, kind, i, p));
                    if before is Some {
                        let b = before->0;
                        let pb = top_rank(tools[b].services(role), kind)->0;
                        assert(is_best(shorter, role, kind, b, pb));
                        assert forall|j: int, q: nat| #[trigger]
                            eligible(longer, role, kind, j, q) implies q < p || (q == p && i
                            <= j) by {
                            if j < n - 1 {
                                assert(eligible(shorter, role, kind, j, q));
                            }
                        }
                    } else {
                        assert forall|j: int, q: nat| #[trigger]
                            eligible(longer, role, kind, j, q) implies q < p || (q == p && i
                            <= j) by {
                            if j < n - 1 {
                                assert(eligible(shorter, role, kind, j, q));
                            }
                        }
                    }
                } else {
                    assert(before == Some(i));
                    assert(is_best(shorter, role, kind, i, p));
                    assert(eligible(shorter, role, kind, i, p));
                    assert(shorter[i] == longer[i]);
                    assert(eligible(longer, role, kind, i, p));
                    assert forall|j: int, q: nat| #[trigger]
                        eligible(longer, role, kind, j, q) implies q < p || (q == p && i <= j) by {
                        if j < n - 1 {
                            assert(eligible(shorter, role, kind, j, q));
                        }
                    }
                }
            },
            None => {
                assert forall|j: int, q: nat| !eligible(longer, role, kind, j, q) by {
                    if eligible(longer, role, kind, j, q) {
                        if j < n - 1 {
                            assert(eligible(shorter, role, kind, j, q));
                        }
                    }
                }
            },
        }
    }
}

/// Where some tool can be used for a format, one is named for it.
pub proof fn lemma_best_tool_exists(
    tools: Seq<ToolView>,
    role: Role,
    kind: CompressType,
    i: int,
    p: nat,
)
    requires
        eligible(tools, role, kind, i, p),
    ensures
        best_tool(tools, role, kind) is Some,
{
    lemma_best_among(tools, role, kind, tools.len() as int);
    assert(tools.take(tools.len() as int) =~= tools);
    match best_among(tools, role, kind, tools.len() as int) {
        Some(b) => {
            lemma_best_tool_is(tools, role, kind, b, top_rank(tools[b].services(role), kind)->0);
        },
        None => {
            assert(!eligible(tools, role, kind, i, p));
        },
    }
}

/// Among the tools that can be used, one of a higher rank is preferred: a
/// tool is not chosen while another can be used with a rank above all of its
/// own, and a tool is not chosen while one registered before it can be used
/// with a rank as high as any of its own.
pub proof fn lemma_best_tool_prefers(
    tools: Seq<ToolView>,
    role: Role,
    kind: CompressType,
    i: int,
    p: nat,
    j: int,
)
    requires
        eligible(tools, role, kind, i, p),
        i != j,
        forall|q: nat| #[trigger] tools[j].offers(role, kind, q) ==> q < p || (q == p && i < j),
    ensures
        best_tool(tools, role, kind) != Some(j),
{
    if best_tool(tools, role, kind) == Some(j) {
        let q = choose|q: nat| is_best(tools, role, kind, j, q);
        assert(eligible(tools, role, kind, j, q));
        assert(tools[j].offers(role, kind, q));
    }
}

/// `x` stands before `y` in a list of keys: it has the higher rank, or the
/// same rank and was not registered later.
spec fn precedes(x: ToolKey, y: ToolKey) -> bool {
    x.priority > y.priority || (x.priority == y.priority && x.ix <= y.ix)
}

/// `keys` lists the services that `tools` declare for `kind` in `role`, each
/// by the position of its tool and its rank: nothing else, best first, and
/// all of them.
spec fn ranked(keys: Seq<ToolKey>, tools: Seq<ToolView>, role: Role, kind: CompressType) -> bool {
    &&& forall|a: int|
        0 <= a < keys.len() ==> (#[trigger] keys[a]).ix < tools.len() && tools[keys[a].ix as int].offers(
            role,
            kind,
            keys[a].priority as nat,
        )
    &&& forall|a: int, b: int|
        0 <= a < b < keys.len() ==> precedes(#[trigger] keys[a], #[trigger] keys[b])
    &&& forall|i: int, p: nat|
        0 <= i < tools.len() && #[trigger] tools[i].offers(role, kind, p) ==> exists|a: int|
            0 <= a < keys.len() && (#[trigger] keys[a]).ix == i && keys[a].priority == p
}

/// The keys that a table holds for `kind`.
spec fn keys_of(table: Seq<Vec<ToolKey>>, kind: CompressType) -> Seq<ToolKey> {
    table[kind.spec_index()]@
}

/// A table holds, for each format, the ranked keys of that format.
spec fn table_ranked(table: Seq<Vec<ToolKey>>, tools: Seq<ToolView>, role: Role) -> bool {
    &&& table.len() == KIND_COUNT
    &&& forall|kind: CompressType| ranked(#[trigger] keys_of(table, kind), tools, role, kind)
}

/// A list of keys stays ranked when tools are replaced by tools that offer
/// the same, and when tools that offer nothing for the format are added.
proof fn lemma_ranked_transfer(
    keys: Seq<ToolKey>,
    from: Seq<ToolView>,
    to: Seq<ToolView>,
    role: Role,
    kind: CompressType,
)
    requires
        ranked(keys, from, role, kind),
        from.len() <= to.len(),
        forall|i: int, p: nat|
            0 <= i < from.len() ==> (#[trigger] to[i].offers(role, kind, p) <==> from[i].offers(
                role,
                kind,
                p,
            )),
        forall|i: int, p: nat| from.len() <= i < to.len() ==> !#[trigger] to[i].offers(role, kind, p),
    ensures
        ranked(keys, to, role, kind),
{
    assert forall|a: int| 0 <= a < keys.len() implies (#[trigger] keys[a]).ix < to.len()
        && to[keys[a].ix as int].offers(role, kind, keys[a].priority as nat) by {
        assert(from[keys[a].ix as int].offers(role, kind, keys[a].priority as nat));
    }
    assert forall|i: int, p: nat| 0 <= i < to.len() && #[trigger] to[i].offers(role, kind, p) implies exists|
        a: int,
    | 0 <= a < keys.len() && (#[trigger] keys[a]).ix == i && keys[a].priority == p by {
        assert(from[i].offers(role, kind, p));
    }
}

/// A list of keys stays ranked when the last tool gains a service of the
/// list's format and the key of that service is put behind the keys of an
/// equal or higher rank.
proof fn lemma_ranked_insert(
    keys: Seq<ToolKey>,
    tools: Seq<ToolView>,
    before: ToolView,
    after: ToolView,
    role: Role,
    kind: CompressType,
    pos: int,
    key: ToolKey,
)
    requires
        ranked(keys, tools.push(before), role, kind),
        forall|q: nat| #[trigger]
            after.offers(role, kind, q) <==> (before.offers(role, kind, q) || q == key.priority),
        key.ix == tools.len(),
        0 <= pos <= keys.len(),
        forall|a: int| 0 <= a < pos ==> (#[trigger] keys[a]).priority >= key.priority,
        pos < keys.len() ==> keys[pos].priority < key.priority,
    ensures
        ranked(keys.insert(pos, key), tools.push(after), role, kind),
{
    let new_keys = keys.insert(pos, key);
    let old_tools = tools.push(before);
    let new_tools = tools.push(after);
    assert forall|a: int| pos <= a < keys.len() implies (#[trigger] keys[a]).priority
        < key.priority by {
        if a > pos {
            assert(precedes(keys[pos], keys[a]));
        }
    }
    assert(after.offers(role, kind, key.priority as nat));
    assert forall|a: int| 0 <= a < new_keys.len() implies (#[trigger] new_keys[a]).ix
        < new_tools.len() && new_tools[new_keys[a].ix as int].offers(
        role,
        kind,
        new_keys[a].priority as nat,
    ) by {
        if a != pos {
            let b = if a < pos {
                a
            } else {
                a - 1
            };
            assert(new_keys[a] == keys[b]);
            assert(old_tools[keys[b].ix as int].offers(role, kind, keys[b].priority as nat));
            if keys[b].ix == tools.len() {
                assert(after.offers(role, kind, keys[b].priority as nat));
            }
        }
    }
    assert forall|a: int, b: int| 0 <= a < b < new_keys.len() implies precedes(
        #[trigger] new_keys[a],
        #[trigger] new_keys[b],
    ) by {
        let a0 = if a < pos {
            a
        } else {
            a - 1
        };
        let b0 = if b < pos {
            b
        } else {
            b - 1
        };
        if a != pos && b != pos {
            assert(precedes(keys[a0], keys[b0]));
        } else if b == pos {
            assert(keys[a0].ix < old_tools.len());
        } else {
            assert(keys[b0].priority < key.priority);
        }
    }
    assert forall|i: int, p: nat|
        0 <= i < new_tools.len() && #[trigger] new_tools[i].offers(role, kind, p) implies exists|
        a: int,
    | 0 <= a < new_keys.len() && (#[trigger] new_keys[a]).ix == i && new_keys[a].priority == p by {
        if i == tools.len() && !before.offers(role, kind, p) {
            assert(new_keys[pos] == key);
        } else {
            assert(old_tools[i].offers(role, kind, p));
            let a0 = choose|a: int|
                0 <= a < keys.len() && (#[trigger] keys[a]).ix == i && keys[a].priority == p;
            let a1 = if a0 < pos {
                a0
            } else {
                a0 + 1
            };
            assert(new_keys[a1] == keys[a0]);
        }
    }
}

/// What a tool offers once one more service is declared for it.
proof fn lemma_offers_push(before: ToolView, after: ToolView, role: Role, s: ServiceView)
    requires
        after.services(role) == before.services(role).push(s),
    ensures
        forall|kind: CompressType, q: nat| #[trigger]
            after.offers(role, kind, q) <==> (before.offers(role, kind, q) || (s.compress_type
                == kind && s.priority == q)),
{
    let n = before.services(role).len() as int;
    assert forall|kind: CompressType, q: nat| #[trigger]
        after.offers(role, kind, q) <==> (before.offers(role, kind, q) || (s.compress_type == kind
            && s.priority == q)) by {
        if after.offers(role, kind, q) {
            let j = choose|j: int|
                0 <= j < after.services(role).len() && (#[trigger] after.services(role)[j]).compress_type
                    == kind && after.services(role)[j].priority == q;
            if j < n {
                assert(before.services(role)[j] == after.services(role)[j]);
            }
        }
        if before.offers(role, kind, q) {
            let j = choose|j: int|
                0 <= j < before.services(role).len() && (#[trigger] before.services(
                    role,
                )[j]).compress_type == kind && before.services(role)[j].priority == q;
            assert(after.services(role)[j] == before.services(role)[j]);
        }
        if s.compress_type == kind && s.priority == q {
            assert(after.services(role)[n] == s);
        }
    }
}

/// The first position in `keys` behind all keys of rank `priority` or higher.
fn rank_position(keys: &Vec<ToolKey>, priority: usize) -> (pos: usize)
    ensures
        pos <= keys.len(),
        forall|a: int| 0 <= a < pos ==> (#[trigger] keys[a]).priority >= priority,
        pos < keys.len() ==> keys[pos as int].priority < priority,
{
    let mut pos: usize = 0;
    while pos < keys.len() && keys[pos].priority >= priority
        invariant
            pos <= keys.len(),
            forall|a: int| 0 <= a < pos ==> (#[trigger] keys[a]).priority >= priority,
        decreases keys.len() - pos,
    {
        pos += 1;
    }
    pos
}

/// A table with an empty list of keys for each format.
fn empty_table() -> (r: Vec<Vec<ToolKey>>)
    ensures
        r.len() == KIND_COUNT,
        forall|k: int| 0 <= k < KIND_COUNT ==> (#[trigger] r[k]).len() == 0,
{
    let mut r: Vec<Vec<ToolKey>> = Vec::new();
    let mut k: usize = 0;
    while k < KIND_COUNT
        invariant
            k <= KIND_COUNT,
            r.len() == k,
            forall|j: int| 0 <= j < k ==> (#[trigger] r[j]).len() == 0,
        decreases KIND_COUNT - k,
    {
        r.push(Vec::new());
        k += 1;
    }
    r
}

/// The tool `tool` with only its first `nd` services for decompressing and
/// its first `nc` services for compressing.
spec fn partial(tool: ToolView, nd: int, nc: int) -> ToolView {
    ToolView { decompress: tool.decompress.take(nd), compress: tool.compress.take(nc), ..tool }
}

/// Puts the keys of the services `services[from..]` of a tool that is about
/// to be registered into `table`.
fn add_keys(
    table: &mut Vec<Vec<ToolKey>>,
    services: &[Service],
    ix: usize,
    Ghost(tools): Ghost<Seq<ToolView>>,
    Ghost(tool): Ghost<ToolView>,
    Ghost(role): Ghost<Role>,
)
    requires
        ix == tools.len(),
        service_views(services@) == tool.services(role),
        table_ranked(
            old(table)@,
            tools.push(
                match role {
                    Role::Decompress => partial(tool, 0, 0),
                    Role::Compress => partial(tool, tool.decompress.len() as int, 0),
                },
            ),
            role,
        ),
    ensures
        table_ranked(final(table)@, tools.push(tool), role),
{
    let ghost stage = |j: int|
        match role {
            Role::Decompress => partial(tool, j, 0),
            Role::Compress => partial(tool, tool.decompress.len() as int, j),
        };
    let ghost all = tool.services(role);
    let mut j: usize = 0;
    while j < services.len()
        invariant
            j <= services.len(),
            ix == tools.len(),
            all == tool.services(role),
            service_views(services@) == all,
            stage == |j: int|
                match role {
                    Role::Decompress => partial(tool, j, 0),
                    Role::Compress => partial(tool, tool.decompress.len() as int, j),
                },
            table_ranked(table@, tools.push(stage(j as int)), role),
        decreases services.len() - j,
    {
        let kind = services[j].compress_type();
        let priority = services[j].rank();
        let key = ToolKey { ix, priority };
        let k = kind.index();
        let ghost before = stage(j as int);
        let ghost after = stage(j + 1);
        let ghost old_table = table@;
        let pos = rank_position(&table[k], priority);
        let list = &mut table[k];
        list.insert(pos, key);
        proof {
            let s = all[j as int];
            assert(s == services[j as int]@);
            assert(all.take(j + 1) =~= all.take(j as int).push(s));
            assert(after.services(role) == before.services(role).push(s));
            lemma_offers_push(before, after, role, s);
            assert(keys_of(old_table, kind) == old_table[k as int]@);
            assert forall|other: CompressType|
                ranked(#[trigger] keys_of(table@, other), tools.push(after), role, other) by {
                assert(ranked(keys_of(old_table, other), tools.push(before), role, other));
                if other == kind {
                    assert(keys_of(table@, other) == keys_of(old_table, kind).insert(
                        pos as int,
                        key,
                    ));
                    lemma_ranked_insert(
                        keys_of(old_table, kind),
                        tools,
                        before,
                        after,
                        role,
                        kind,
                        pos as int,
                        key,
                    );
                } else {
                    assert(keys_of(table@, other) == keys_of(old_table, other));
                    lemma_ranked_transfer(
                        keys_of(old_table, other),
                        tools.push(before),
                        tools.push(after),
                        role,
                        other,
                    );
                }
            }
        }
        j += 1;
    }
    proof {
        assert(all.take(services.len() as int) =~= all);
        assert(tool.decompress.take(tool.decompress.len() as int) =~= tool.decompress);
        match role {
            Role::Decompress => {
                assert(partial(tool, tool.decompress.len() as int, 0).services(role)
                    == tool.services(role));
                assert forall|kind: CompressType|
                    ranked(#[trigger] keys_of(table@, kind), tools.push(tool), role, kind) by {
                    lemma_ranked_transfer(
                        keys_of(table@, kind),
                        tools.push(stage(j as int)),
                        tools.push(tool),
                        role,
                        kind,
                    );
                }
            },
            Role::Compress => {
                assert(stage(j as int) == tool);
            },
        }
    }
}

/// The tools that are known, in the order in which they were registered,
/// with an index by format and rank for each role.
#[derive(Debug)]
pub struct ToolRegister {
    decompress_tools: Vec<Vec<ToolKey>>,
    compress_tools: Vec<Vec<ToolKey>>,
    tools: Vec<Tool>,
}

impl View for ToolRegister {
    type V = Seq<ToolView>;

    closed spec fn view(&self) -> Seq<ToolView> {
        tool_views(self.tools@)
    }
}

impl Default for ToolRegister {
    fn default() -> (r: Self)
        ensures
            r@ == Seq::<ToolView>::empty(),
    {
        Self::new()
    }
}

impl ToolRegister {
    /// The two indexes agree with the list of tools.
    #[verifier::type_invariant]
    closed spec fn indexed(&self) -> bool {
        &&& table_ranked(self.decompress_tools@, tool_views(self.tools@), Role::Decompress)
        &&& table_ranked(self.compress_tools@, tool_views(self.tools@), Role::Compress)
    }

    /// A register without tools.
    pub fn new() -> (r: Self)
        ensures
            r@ == Seq::<ToolView>::empty(),
    {
        let decompress_tools = empty_table();
        let compress_tools = empty_table();
        let tools: Vec<Tool> = Vec::new();
        proof {
            assert(tool_views(tools@) =~= Seq::<ToolView>::empty());
            assert forall|kind: CompressType|
                ranked(
                    #[trigger] keys_of(decompress_tools@, kind),
                    tool_views(tools@),
                    Role::Decompress,
                    kind,
                ) by {
                assert(keys_of(decompress_tools@, kind).len() == 0);
            }
            assert forall|kind: CompressType|
                ranked(
                    #[trigger] keys_of(compress_tools@, kind),
                    tool_views(tools@),
                    Role::Compress,
                    kind,
                ) by {
                assert(keys_of(compress_tools@, kind).len() == 0);
            }
        }
        ToolRegister { decompress_tools, compress_tools, tools }
    }

    /// Registers `tool` behind the tools that are there.
    ///
    /// Whether the tool can be used depends on the path that it carries at
    /// this moment: a tool whose executable has not been found stays in the
    /// register, and is passed over.
    pub fn add(self, tool: Tool) -> (r: Self)
        ensures
            r@ == self@.push(tool@),
    {
        proof {
            use_type_invariant(&self);
        }
        let ToolRegister { mut decompress_tools, mut compress_tools, mut tools } = self;
        let ix = tools.len();
        let ghost before = tool_views(tools@);
        let ghost all = tool@;
        proof {
            assert forall|kind: CompressType|
                ranked(
                    #[trigger] keys_of(decompress_tools@, kind),
                    before.push(partial(all, 0, 0)),
                    Role::Decompress,
                    kind,
                ) by {
                assert(ranked(keys_of(decompress_tools@, kind), before, Role::Decompress, kind));
                lemma_ranked_transfer(
                    keys_of(decompress_tools@, kind),
                    before,
                    before.push(partial(all, 0, 0)),
                    Role::Decompress,
                    kind,
                );
            }
        }
        add_keys(
            &mut decompress_tools,
            tool.decompress_services(),
            ix,
            Ghost(before),
            Ghost(all),
            Ghost(Role::Decompress),
        );
        proof {
            assert forall|kind: CompressType|
                ranked(
                    #[trigger] keys_of(compress_tools@, kind),
                    before.push(partial(all, all.decompress.len() as int, 0)),
                    Role::Compress,
                    kind,
                ) by {
                assert(ranked(keys_of(compress_tools@, kind), before, Role::Compress, kind));
                lemma_ranked_transfer(
                    keys_of(compress_tools@, kind),
                    before,
                    before.push(partial(all, all.decompress.len() as int, 0)),
                    Role::Compress,
                    kind,
                );
            }
        }
        add_keys(
            &mut compress_tools,
            tool.compress_services(),
            ix,
            Ghost(before),
            Ghost(all),
            Ghost(Role::Compress),
        );
        tools.push(tool);
        assert(tool_views(tools@) =~= before.push(all));
        ToolRegister { decompress_tools, compress_tools, tools }
    }

    /// The register of `tools`, in their order.
    pub fn from_tools(tools: Vec<Tool>) -> (r: Self)
        ensures
            r@ == tool_views(tools@),
    {
        let mut rest = tools;
        let mut r = ToolRegister::new();
        while rest.len() > 0
            invariant
                r@ + tool_views(rest@) == tool_views(tools@),
            decreases rest.len(),
        {
            let ghost before = r@;
            let ghost waiting = rest@;
            let tool = rest.remove(0);
            r = r.add(tool);
            assert(before.push(tool@) + tool_views(rest@) =~= before + tool_views(waiting));
        }
        assert(r@ + tool_views(rest@) =~= r@);
        r
    }

    /// The tool to use for `ct` in `role`: of the tools whose executable was
    /// found and that serve the format, the one that declares the highest
    /// rank for it, and among several of them the one registered first.
    pub fn get_tool(&self, ct: CompressType, role: Role) -> (r: Option<&Tool>)
        ensures
            r is Some <==> exists|i: int, p: nat| eligible(self@, role, ct, i, p),
            match best_tool(self@, role, ct) {
                Some(i) => 0 <= i < self@.len() && (r matches Some(t) && t@ == self@[i]),
                None => r is None,
            },
    {
        proof {
            use_type_invariant(self);
        }
        let keys = match role {
            Role::Compress => &self.compress_tools[ct.index()],
            Role::Decompress => &self.decompress_tools[ct.index()],
        };
        let ghost table = match role {
            Role::Compress => self.compress_tools@,
            Role::Decompress => self.decompress_tools@,
        };
        assert(keys@ == keys_of(table, ct));
        assert(ranked(keys@, self@, role, ct));
        let mut a: usize = 0;
        while a < keys.len()
            invariant
                a <= keys.len(),
                self@ == tool_views(self.tools@),
                ranked(keys@, self@, role, ct),
                forall|b: int| 0 <= b < a ==> self@[(#[trigger] keys[b]).ix as int].path is None,
            decreases keys.len() - a,
        {
            let ix = keys[a].ix;
            let tool = &self.tools[ix];
            if tool.path().is_some() {
                proof {
                    let p = keys[a as int].priority as nat;
                    assert(eligible(self@, role, ct, ix as int, p));
                    assert forall|j: int, q: nat| #[trigger]
                        eligible(self@, role, ct, j, q) implies q < p || (q == p && ix <= j) by {
                        assert(self@[j].offers(role, ct, q));
                        let b = choose|b: int|
                            0 <= b < keys.len() && (#[trigger] keys[b]).ix == j && keys[b].priority
                                == q;
                        if b > a {
                            assert(precedes(keys[a as int], keys[b]));
                        }
                    }
                    lemma_best_tool_is(self@, role, ct, ix as int, p);
                }
                return Some(tool);
            }
            a += 1;
        }
        proof {
            assert forall|i: int, p: nat| !eligible(self@, role, ct, i, p) by {
                if eligible(self@, role, ct, i, p) {
                    assert(self@[i].offers(role, ct, p));
                    let b = choose|b: int|
                        0 <= b < keys.len() && (#[trigger] keys[b]).ix == i && keys[b].priority == p;
                    assert(self@[keys[b].ix as int].path is None);
                }
            }
        }
        None
    }

    /// The tool to compress `ct` with, if one is installed.
    pub fn get_compress_tool(&self, ct: CompressType) -> (r: Option<&Tool>)
        ensures
            r is Some <==> exists|i: int, p: nat| eligible(self@, Role::Compress, ct, i, p),
            match best_tool(self@, Role::Compress, ct) {
                Some(i) => 0 <= i < self@.len() && (r matches Some(t) && t@ == self@[i]),
                None => r is None,
            },
    {
        self.get_tool(ct, Role::Compress)
    }

    /// The tool to decompress `ct` with, if one is installed.
    pub fn get_decompress_tool(&self, ct: CompressType) -> (r: Option<&Tool>)
        ensures
            r is Some <==> exists|i: int, p: nat| eligible(self@, Role::Decompress, ct, i, p),
            match best_tool(self@, Role::Decompress, ct) {
                Some(i) => 0 <= i < self@.len() && (r matches Some(t) && t@ == self@[i]),
                None => r is None,
            },
    {
        self.get_tool(ct, Role::Decompress)
    }
}

/// The tool of `tools` to decompress `ct` with, if one is installed.
pub fn get_decompress_tool(tools: &ToolRegister, ct: CompressType) -> (r: Option<&Tool>)
    ensures
        r is Some <==> exists|i: int, p: nat| eligible(tools@, Role::Decompress, ct, i, p),
        match best_tool(tools@, Role::Decompress, ct) {
            Some(i) => 0 <= i < tools@.len() && (r matches Some(t) && t@ == tools@[i]),
            None => r is None,
        },
{
    tools.get_decompress_tool(ct)
}

/// The tool of `tools` to compress `ct` with, if one is installed.
pub fn get_compress_tool(tools: &ToolRegister, ct: CompressType) -> (r: Option<&Tool>)
    ensures
        r is Some <==> exists|i: int, p: nat| eligible(tools@, Role::Compress, ct, i, p),
        match best_tool(tools@, Role::Compress, ct) {
            Some(i) => 0 <= i < tools@.len() && (r matches Some(t) && t@ == tools@[i]),
            None => r is None,
        },
{
    tools.get_compress_tool(ct)
}

} // verus!
