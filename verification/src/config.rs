use vstd::hash_map::StringHashMap;
use vstd::prelude::*;

pub mod backend;
pub mod frontend;
pub mod global;

use itertools::Itertools;

use crate::sections::lines::borrowed;
use crate::sections::lines::borrowed::Line;
use crate::sections::lines::owned::opt_to_owned;
use crate::sections::lines::{AddressModel, LineModel, PasswordModel};
use crate::sections::{Section, SectionModel};

verus! {

/// An address whose host text is independently owned.
#[derive(Clone, Debug)]
pub struct Address {
    pub host: String,
    pub port: Option<u16>,
    pub wildcard: bool,
}

impl View for Address {
    type V = AddressModel;

    open spec fn view(&self) -> AddressModel {
        AddressModel { host: self.host@, port: self.port, wildcard: self.wildcard }
    }
}

impl DeepView for Address {
    type V = AddressModel;

    open spec fn deep_view(&self) -> AddressModel {
        self.view()
    }
}

impl Address {
    /// Deep-copies a borrowed address: the owned result has the same model.
    pub fn from<'a>(a: &borrowed::Address<'a>) -> (r: Address)
        ensures
            r@ == a@,
    {
        Address { host: a.host.to_owned(), port: a.port, wildcard: a.wildcard }
    }
}

/// A credential that is independently owned: plain text or a hash.
#[derive(Clone, Debug)]
pub enum Password {
    Plain(String),
    Hashed(String),
}

impl View for Password {
    type V = PasswordModel;

    open spec fn view(&self) -> PasswordModel {
        match self {
            Password::Plain(s) => PasswordModel::Plain(s@),
            Password::Hashed(s) => PasswordModel::Hashed(s@),
        }
    }
}

impl DeepView for Password {
    type V = PasswordModel;

    open spec fn deep_view(&self) -> PasswordModel {
        self.view()
    }
}

impl Password {
    /// Deep-copies a borrowed credential: the owned result has the same model.
    pub fn from<'a>(p: &borrowed::Password<'a>) -> (r: Password)
        ensures
            r@ == p@,
    {
        match p {
            borrowed::Password::Plain(s) => Password::Plain((*s).to_owned()),
            borrowed::Password::Hashed(s) => Password::Hashed((*s).to_owned()),
        }
    }
}

/// Mathematical value of a named traffic-matching rule.
pub struct AclModel {
    pub name: Seq<char>,
    pub rule: Seq<char>,
}

/// A named boolean condition rule; its identity is the pair of name and rule
/// text. A line with a name but no rule text is rejected before such a value
/// is ever constructed.
#[derive(Clone, Debug)]
pub struct Acl {
    pub name: String,
    pub rule: String,
}

impl View for Acl {
    type V = AclModel;

    open spec fn view(&self) -> AclModel {
        AclModel { name: self.name@, rule: self.rule@ }
    }
}

impl DeepView for Acl {
    type V = AclModel;

    open spec fn deep_view(&self) -> AclModel {
        self.view()
    }
}

/// Mathematical value of one load-balanced backend member.
pub struct ServerModel {
    pub name: Seq<char>,
    pub addr: AddressModel,
    pub option: Option<Seq<char>>,
}

/// One load-balanced backend member; duplicates by name are permitted.
#[derive(Clone, Debug)]
pub struct Server {
    pub name: String,
    pub addr: Address,
    pub option: Option<String>,
}

impl View for Server {
    type V = ServerModel;

    open spec fn view(&self) -> ServerModel {
        ServerModel { name: self.name@, addr: self.addr@, option: self.option.deep_view() }
    }
}

impl DeepView for Server {
    type V = ServerModel;

    open spec fn deep_view(&self) -> ServerModel {
        self.view()
    }
}

/// Mathematical value of a build failure.
pub enum ErrorModel {
    MissingGlobal,
    MultipleGlobalEntries(Seq<SectionModel>),
    WrongGlobalLines(Seq<LineModel>),
    WrongFrontendLines(Seq<LineModel>),
    WrongBackendLines(Seq<LineModel>),
    AclWithoutRule(Seq<char>),
    MultipleSysUsers(Seq<LineModel>),
    MultipleSysGroups(Seq<LineModel>),
    SysGroupHasUsers(LineModel),
    MoreThenOneBind(Seq<LineModel>),
    NoBind,
    HeaderAndBindLine,
}

/// Why a section sequence cannot be built into a configuration. Variants
/// that report offending lines or entries carry every one of them, not just
/// the first.
#[derive(Debug)]
pub enum Error<'a> {
    MissingGlobal,
    MultipleGlobalEntries(Vec<&'a Section<'a>>),
    WrongGlobalLines(Vec<&'a Line<'a>>),
    WrongFrontendLines(Vec<&'a Line<'a>>),
    WrongBackendLines(Vec<&'a Line<'a>>),
    AclWithoutRule(&'a str),
    MultipleSysUsers(Vec<&'a Line<'a>>),
    MultipleSysGroups(Vec<&'a Line<'a>>),
    SysGroupHasUsers(&'a Line<'a>),
    MoreThenOneBind(Vec<&'a Line<'a>>),
    NoBind,
    HeaderAndBindLine,
}

impl<'a> View for Error<'a> {
    type V = ErrorModel;

    open spec fn view(&self) -> ErrorModel {
        match self {
            Error::MissingGlobal => ErrorModel::MissingGlobal,
            Error::MultipleGlobalEntries(v) => ErrorModel::MultipleGlobalEntries(v.deep_view()),
            Error::WrongGlobalLines(v) => ErrorModel::WrongGlobalLines(v.deep_view()),
            Error::WrongFrontendLines(v) => ErrorModel::WrongFrontendLines(v.deep_view()),
            Error::WrongBackendLines(v) => ErrorModel::WrongBackendLines(v.deep_view()),
            Error::AclWithoutRule(s) => ErrorModel::AclWithoutRule(s@),
            Error::MultipleSysUsers(v) => ErrorModel::MultipleSysUsers(v.deep_view()),
            Error::MultipleSysGroups(v) => ErrorModel::MultipleSysGroups(v.deep_view()),
            Error::SysGroupHasUsers(l) => ErrorModel::SysGroupHasUsers(l.deep_view()),
            Error::MoreThenOneBind(v) => ErrorModel::MoreThenOneBind(v.deep_view()),
            Error::NoBind => ErrorModel::NoBind,
            Error::HeaderAndBindLine => ErrorModel::HeaderAndBindLine,
        }
    }
}

impl<'a> DeepView for Error<'a> {
    type V = ErrorModel;

    open spec fn deep_view(&self) -> ErrorModel {
        self.view()
    }
}

/// The model of a build outcome: the model of the value on success, the model
/// of the error on failure.
pub open spec fn result_model<T: View, E: View>(r: Result<T, E>) -> Result<T::V, E::V> {
    match r {
        Ok(t) => Ok(t@),
        Err(e) => Err(e@),
    }
}

/// The models of a section sequence, in order.
pub open spec fn sections_model(ss: Seq<Section>) -> Seq<SectionModel> {
    Seq::new(ss.len(), |i: int| ss[i]@)
}

/// The global entries of a section sequence, in order.
pub open spec fn global_sections(ss: Seq<SectionModel>) -> Seq<SectionModel>
    decreases ss.len(),
{
    if ss.len() == 0 {
        Seq::empty()
    } else {
        let rest = global_sections(ss.drop_last());
        if ss.last() is Global {
            rest.push(ss.last())
        } else {
            rest
        }
    }
}

/// The body lines of a section, whatever its kind.
pub open spec fn section_lines(s: SectionModel) -> Seq<LineModel> {
    match s {
        SectionModel::Global { lines } => lines,
        SectionModel::Frontend { lines, .. } => lines,
        SectionModel::Backend { lines, .. } => lines,
        SectionModel::Listen { lines, .. } => lines,
        SectionModel::Userlist { lines, .. } => lines,
    }
}

/// The lines that are not blank, in order.
pub open spec fn non_blank(ls: Seq<LineModel>) -> Seq<LineModel>
    decreases ls.len(),
{
    if ls.len() == 0 {
        Seq::empty()
    } else {
        let rest = non_blank(ls.drop_last());
        if ls.last() is Blank {
            rest
        } else {
            rest.push(ls.last())
        }
    }
}

/// The key and value of every config line, in order.
pub open spec fn config_pairs(ls: Seq<LineModel>) -> Seq<(Seq<char>, Option<Seq<char>>)>
    decreases ls.len(),
{
    if ls.len() == 0 {
        Seq::empty()
    } else {
        let rest = config_pairs(ls.drop_last());
        match ls.last() {
            LineModel::Config { key, value, .. } => rest.push((key, value)),
            _ => rest,
        }
    }
}

/// The lines that are not config lines, in order.
pub open spec fn non_config_lines(ls: Seq<LineModel>) -> Seq<LineModel>
    decreases ls.len(),
{
    if ls.len() == 0 {
        Seq::empty()
    } else {
        let rest = non_config_lines(ls.drop_last());
        if ls.last() is Config {
            rest
        } else {
            rest.push(ls.last())
        }
    }
}

/// Folds key-value pairs into a map, the later pair winning on a repeated key.
pub open spec fn map_of_pairs(ps: Seq<(Seq<char>, Option<Seq<char>>)>) -> Map<
    Seq<char>,
    Option<Seq<char>>,
>
    decreases ps.len(),
{
    if ps.len() == 0 {
        Map::empty()
    } else {
        map_of_pairs(ps.drop_last()).insert(ps.last().0, ps.last().1)
    }
}

/// The model of a key-to-optional-value map whose values still hold owned
/// strings: the same map with every value taken to its model.
pub open spec fn deep_value_map(m: Map<Seq<char>, Option<String>>) -> Map<
    Seq<char>,
    Option<Seq<char>>,
> {
    Map::new(|k: Seq<char>| m.dom().contains(k), |k: Seq<char>| m[k].deep_view())
}

pub proof fn lemma_deep_value_map_insert(
    m: Map<Seq<char>, Option<String>>,
    k: Seq<char>,
    v: Option<String>,
)
    ensures
        deep_value_map(m.insert(k, v)) == deep_value_map(m).insert(k, v.deep_view()),
{
    assert(deep_value_map(m.insert(k, v)) =~= deep_value_map(m).insert(k, v.deep_view()));
}

/// What building the header-level global settings from a section sequence
/// yields: exactly one global section must exist, its non-blank lines must
/// all be config lines, and the later line wins on a repeated key.
pub open spec fn build_global_entry(ss: Seq<SectionModel>) -> Result<
    Map<Seq<char>, Option<Seq<char>>>,
    ErrorModel,
> {
    let gs = global_sections(ss);
    if gs.len() > 1 {
        Err(ErrorModel::MultipleGlobalEntries(gs))
    } else if gs.len() == 0 {
        Err(ErrorModel::MissingGlobal)
    } else {
        let ls = non_blank(section_lines(gs[0]));
        if non_config_lines(ls).len() > 0 {
            Err(ErrorModel::WrongGlobalLines(non_config_lines(ls)))
        } else {
            Ok(map_of_pairs(config_pairs(ls)))
        }
    }
}

/// The proxy name a section is declared with; the global section has none.
pub open spec fn section_proxy(s: SectionModel) -> Seq<char> {
    match s {
        SectionModel::Global { .. } => Seq::empty(),
        SectionModel::Frontend { proxy, .. } => proxy,
        SectionModel::Backend { proxy, .. } => proxy,
        SectionModel::Listen { proxy, .. } => proxy,
        SectionModel::Userlist { name, .. } => name,
    }
}

/// Key-to-value mapping of the config lines of a body, the later line
/// winning on a repeated key.
pub open spec fn config_line_map(ls: Seq<LineModel>) -> Map<Seq<char>, Option<Seq<char>>>
    decreases ls.len(),
{
    if ls.len() == 0 {
        Map::empty()
    } else {
        let m = config_line_map(ls.drop_last());
        match ls.last() {
            LineModel::Config { key, value, .. } => m.insert(key, value),
            _ => m,
        }
    }
}

/// Keyword-to-value mapping of the option lines of a body, the later line
/// winning on a repeated keyword.
pub open spec fn option_line_map(ls: Seq<LineModel>) -> Map<Seq<char>, Option<Seq<char>>>
    decreases ls.len(),
{
    if ls.len() == 0 {
        Map::empty()
    } else {
        let m = option_line_map(ls.drop_last());
        match ls.last() {
            LineModel::Option { keyword, value, .. } => m.insert(keyword, value),
            _ => m,
        }
    }
}

/// The name on the first acl line that carries no rule text, if any.
pub open spec fn first_bad_acl(ls: Seq<LineModel>) -> Option<Seq<char>>
    decreases ls.len(),
{
    if ls.len() == 0 {
        None
    } else {
        match ls[0] {
            LineModel::Acl { name, rule: None, .. } => Some(name),
            _ => first_bad_acl(ls.drop_first()),
        }
    }
}

/// Scanning two bodies in a row finds the first rule-less acl line of the
/// first body, or else that of the second.
pub proof fn lemma_first_bad_acl_append(s: Seq<LineModel>, t: Seq<LineModel>)
    ensures
        first_bad_acl(s + t) == if first_bad_acl(s) is Some {
            first_bad_acl(s)
        } else {
            first_bad_acl(t)
        },
    decreases s.len(),
{
    if s.len() == 0 {
        assert(s + t =~= t);
    } else {
        assert((s + t)[0] == s[0]);
        assert((s + t).drop_first() =~= s.drop_first() + t);
        lemma_first_bad_acl_append(s.drop_first(), t);
    }
}

/// On a single line, the scan finds that line exactly when it is a rule-less
/// acl line.
pub proof fn lemma_first_bad_acl_single(x: LineModel)
    ensures
        first_bad_acl(seq![x]) == (match x {
            LineModel::Acl { name, rule: None, .. } => Some(name),
            _ => None,
        }),
{
    assert(seq![x].len() == 1);
    assert(seq![x][0] == x);
    assert(seq![x].drop_first() =~= Seq::<LineModel>::empty());
    assert(first_bad_acl(Seq::<LineModel>::empty()) is None);
}

/// The set of acl values carried by the acl lines of a body that have rule
/// text.
pub open spec fn acl_set_of(ls: Seq<LineModel>) -> Set<AclModel>
    decreases ls.len(),
{
    if ls.len() == 0 {
        Set::empty()
    } else {
        let rest = acl_set_of(ls.drop_last());
        match ls.last() {
            LineModel::Acl { name, rule: Some(rule), .. } => rest.insert(
                AclModel { name, rule },
            ),
            _ => rest,
        }
    }
}

/// The set of models of a sequence of acl values.
pub open spec fn acls_set(s: Seq<Acl>) -> Set<AclModel>
    decreases s.len(),
{
    if s.len() == 0 {
        Set::empty()
    } else {
        acls_set(s.drop_last()).insert(s.last()@)
    }
}

/// An acl model is in the set of a sequence exactly when some element of the
/// sequence has that model.
pub proof fn lemma_acls_set_contains(s: Seq<Acl>, x: AclModel)
    ensures
        acls_set(s).contains(x) <==> exists|i: int| 0 <= i < s.len() && s[i]@ == x,
    decreases s.len(),
{
    if s.len() > 0 {
        lemma_acls_set_contains(s.drop_last(), x);
        if exists|i: int| 0 <= i < s.len() - 1 && s[i]@ == x {
            let i = choose|i: int| 0 <= i < s.len() - 1 && s[i]@ == x;
            assert(s.drop_last()[i]@ == x);
        }
    }
}

fn acl_eq(a: &Acl, b: &Acl) -> (r: bool)
    ensures
        r == (a@ == b@),
{
    let names = a.name == b.name;
    let rules = a.rule == b.rule;
    names && rules
}

/// Adds an acl value to a collection with set semantics: a value whose model
/// is already present is not added again.
pub(crate) fn insert_acl(acls: &mut Vec<Acl>, a: Acl)
    ensures
        acls_set(final(acls)@) == acls_set(old(acls)@).insert(a@),
{
    let mut i: usize = 0;
    while i < acls.len()
        invariant
            i <= acls.len(),
            acls@ == old(acls)@,
            forall|j: int| 0 <= j < i ==> #[trigger] acls@[j]@ != a@,
        decreases acls.len() - i,
    {
        if acl_eq(&acls[i], &a) {
            proof {
                lemma_acls_set_contains(acls@, a@);
                assert(acls_set(acls@).insert(a@) =~= acls_set(acls@));
            }
            return ;
        }
        i = i + 1;
    }
    acls.push(a);
    proof {
        assert(acls@.drop_last() =~= old(acls)@);
    }
}

/// A line is a config line that binds the given key.
pub open spec fn is_config_with_key(l: LineModel, k: Seq<char>) -> bool {
    l matches LineModel::Config { key, .. } && key == k
}

/// The value carried by a config line.
pub open spec fn config_line_value(l: LineModel) -> Option<Seq<char>> {
    match l {
        LineModel::Config { value, .. } => value,
        _ => None,
    }
}

/// Law: the config mapping of a body holds exactly the keys of its config
/// lines, and binds each key to the value of the last config line that
/// carries it.
#[verifier::rlimit(50)]
pub proof fn lemma_config_line_map_last_write(ls: Seq<LineModel>, k: Seq<char>)
    ensures
        config_line_map(ls).contains_key(k) <==> exists|i: int|
            0 <= i < ls.len() && is_config_with_key(#[trigger] ls[i], k),
        forall|i: int|
            0 <= i < ls.len() && is_config_with_key(#[trigger] ls[i], k) && (forall|j: int|
                i < j < ls.len() ==> !is_config_with_key(#[trigger] ls[j], k))
                ==> config_line_map(ls)[k] == config_line_value(ls[i]),
    decreases ls.len(),
{
    if ls.len() > 0 {
        lemma_config_line_map_last_write(ls.drop_last(), k);
        let n = ls.len() - 1;
        assert forall|i: int|
            0 <= i < n && is_config_with_key(#[trigger] ls.drop_last()[i], k) implies exists|m: int|
            0 <= m < ls.len() && is_config_with_key(#[trigger] ls[m], k) by {
            assert(ls[i] == ls.drop_last()[i]);
        }
        if exists|i: int| 0 <= i < ls.len() && is_config_with_key(#[trigger] ls[i], k) {
            let i = choose|i: int| 0 <= i < ls.len() && is_config_with_key(#[trigger] ls[i], k);
            if i < n {
                assert(is_config_with_key(ls.drop_last()[i], k));
            }
        }
        assert forall|i: int|
            0 <= i < ls.len() && is_config_with_key(#[trigger] ls[i], k) && (forall|j: int|
                i < j < ls.len() ==> !is_config_with_key(#[trigger] ls[j], k))
                implies config_line_map(ls)[k] == config_line_value(ls[i]) by {
            if i == n {
                assert(is_config_with_key(ls.last(), k));
            } else {
                assert(!is_config_with_key(ls[n], k));
                assert(is_config_with_key(ls.drop_last()[i], k));
                assert forall|j: int| i < j < n implies !is_config_with_key(
                    #[trigger] ls.drop_last()[j],
                    k,
                ) by {
                    assert(ls.drop_last()[j] == ls[j]);
                }
            }
        }
    }
}

/// Classification of one line of the global section body: the owned key and
/// value of a config line, or the line itself when it is anything else.
enum GlobalLineClass<'a> {
    Entry(String, Option<String>),
    Other(&'a Line<'a>),
}

fn classify_global_line<'a>(l: &'a Line<'a>) -> (r: GlobalLineClass<'a>)
    ensures
        match r {
            GlobalLineClass::Entry(key, value) => l@ matches LineModel::Config {
                key: k,
                value: v,
                ..
            } && key@ == k && value.deep_view() == v,
            GlobalLineClass::Other(o) => o@ == l@ && !(l@ is Config),
        },
{
    match l {
        Line::Config { key, value, .. } => GlobalLineClass::Entry(
            (*key).to_owned(),
            opt_to_owned(value),
        ),
        _ => GlobalLineClass::Other(l),
    }
}

/// Relies on itertools' partition_map: every item is mapped through the
/// closure and appended to the left or the right output as the returned side
/// directs, each output keeping the input order.
#[verifier::external_body]
fn partition_global_lines<'a>(lines: Vec<&'a Line<'a>>) -> (r: (
    Vec<(String, Option<String>)>,
    Vec<&'a Line<'a>>,
))
    ensures
        r.0.deep_view() == config_pairs(lines.deep_view()),
        r.1.deep_view() == non_config_lines(lines.deep_view()),
{
    lines.into_iter().partition_map(
        |l| match classify_global_line(l) {
            GlobalLineClass::Entry(key, value) => itertools::Either::Left((key, value)),
            GlobalLineClass::Other(line) => itertools::Either::Right(line),
        },
    )
}

fn opt_clone(o: &Option<String>) -> (r: Option<String>)
    ensures
        r == *o,
{
    match o {
        Some(s) => Some(s.clone()),
        None => None,
    }
}

/// Every entry of the global sections of a sequence is a global section.
pub proof fn lemma_global_sections_are_global(ss: Seq<SectionModel>)
    ensures
        forall|i: int|
            0 <= i < global_sections(ss).len() ==> #[trigger] global_sections(ss)[i] is Global,
    decreases ss.len(),
{
    if ss.len() > 0 {
        lemma_global_sections_are_global(ss.drop_last());
    }
}

/// The header-level global settings: the key-to-value mapping of the single
/// global section's config lines.
pub struct Global {
    pub config: StringHashMap<Option<String>>,
}

impl View for Global {
    type V = Map<Seq<char>, Option<Seq<char>>>;

    open spec fn view(&self) -> Map<Seq<char>, Option<Seq<char>>> {
        deep_value_map(self.config@)
    }
}

/// Collects references to the global sections of a sequence, in order.
pub(crate) fn collect_global_sections<'a>(sections: &'a [Section<'a>]) -> (r: Vec<
    &'a Section<'a>,
>)
    ensures
        r.deep_view() == global_sections(sections_model(sections@)),
{
    let ghost ssd = sections_model(sections@);
    let mut globals: Vec<&'a Section<'a>> = Vec::new();
    let mut i: usize = 0;
    while i < sections.len()
        invariant
            i <= sections.len(),
            ssd == sections_model(sections@),
            globals.deep_view() == global_sections(ssd.take(i as int)),
        decreases sections.len() - i,
    {
        let e = &sections[i];
        proof {
            assert(ssd.take(i + 1).drop_last() =~= ssd.take(i as int));
            assert(ssd.take(i + 1).last() == e@);
        }
        if matches!(e, Section::Global { .. }) {
            globals.push(e);
            proof {
                assert(globals.deep_view() =~= global_sections(ssd.take(i + 1)));
            }
        } else {
            proof {
                assert(!(e@ is Global));
            }
        }
        i = i + 1;
    }
    proof {
        assert(ssd.take(sections@.len() as int) =~= ssd);
    }
    globals
}

impl Global {
    /// Builds the header-level global settings from the full section
    /// sequence: fails unless exactly one global section exists and every
    /// non-blank line in it is a config line; on a repeated key the later
    /// line's value wins.
    pub fn try_from<'a>(sections: &'a [Section<'a>]) -> (r: Result<Global, Error<'a>>)
        ensures
            result_model(r) == build_global_entry(sections_model(sections@)),
    {
        let ghost ssd = sections_model(sections@);
        let globals = collect_global_sections(sections);
        if globals.len() > 1 {
            return Err(Error::MultipleGlobalEntries(globals));
        }
        if globals.len() == 0 {
            return Err(Error::MissingGlobal);
        }
        proof {
            lemma_global_sections_are_global(ssd);
            assert(globals.deep_view()[0] == global_sections(ssd)[0]);
        }
        let lines: &'a Vec<Line<'a>> = match globals[0] {
            Section::Global { lines } => lines,
            _ => vstd::pervasive::unreached(),
        };
        let ghost ldv = non_blank(lines.deep_view());
        let mut nb: Vec<&'a Line<'a>> = Vec::new();
        let mut j: usize = 0;
        while j < lines.len()
            invariant
                j <= lines.len(),
                nb.deep_view() == non_blank(lines.deep_view().take(j as int)),
            decreases lines.len() - j,
        {
            let l = &lines[j];
            proof {
                assert(lines.deep_view().take(j + 1).drop_last() =~= lines.deep_view().take(
                    j as int,
                ));
                assert(lines.deep_view().take(j + 1).last() == l@);
            }
            if !matches!(l, Line::Blank) {
                nb.push(l);
                proof {
                    assert(nb.deep_view() =~= non_blank(lines.deep_view().take(j + 1)));
                }
            } else {
                proof {
                    assert(l@ is Blank);
                }
            }
            j = j + 1;
        }
        proof {
            assert(lines.deep_view().take(lines@.len() as int) =~= lines.deep_view());
            assert(nb.deep_view() == ldv);
        }
        let (pairs, other) = partition_global_lines(nb);
        if other.len() > 0 {
            return Err(Error::WrongGlobalLines(other));
        }
        proof {
            assert(non_config_lines(ldv) =~= Seq::<LineModel>::empty());
        }
        let mut config: StringHashMap<Option<String>> = StringHashMap::new();
        proof {
            assert(deep_value_map(config@) =~= map_of_pairs(pairs.deep_view().take(0)));
        }
        let mut m: usize = 0;
        while m < pairs.len()
            invariant
                m <= pairs.len(),
                pairs.deep_view() == config_pairs(ldv),
                deep_value_map(config@) == map_of_pairs(pairs.deep_view().take(m as int)),
            decreases pairs.len() - m,
        {
            let (k, v) = &pairs[m];
            let ghost pre = config@;
            config.insert(k.clone(), opt_clone(v));
            proof {
                lemma_deep_value_map_insert(pre, k@, *v);
                assert(pairs.deep_view().take(m + 1).drop_last() =~= pairs.deep_view().take(
                    m as int,
                ));
                assert(pairs.deep_view().take(m + 1).last() == (k@, v.deep_view()));
            }
            m = m + 1;
        }
        proof {
            assert(pairs.deep_view().take(pairs@.len() as int) =~= pairs.deep_view());
        }
        Ok(Global { config })
    }
}

/// Placeholder for the defaults section: the section is recognized, but no
/// validation is applied to it yet, and callers may assume nothing of it.
pub struct Default;

impl Default {
    /// Accepts any section sequence; the defaults section is not refined yet.
    pub fn try_from<'a>(sections: &'a [Section<'a>]) -> (r: Result<Default, Error<'a>>)
        ensures
            r is Ok,
    {
        let _ = sections;
        Ok(Default)
    }
}

/// Every validated frontend section, in input order: sockets accepting
/// clients.
pub struct Frontends {
    pub frontends: Vec<frontend::Frontend>,
}

impl Frontends {
    /// Builds every frontend section of the full section sequence, in input
    /// order, returning the first failure.
    pub fn try_from<'a>(sections: &'a [Section<'a>]) -> (r: Result<Frontends, Error<'a>>)
        ensures
            match r {
                Ok(f) => frontend::build_frontends(sections_model(sections@)) == Ok::<
                    _,
                    ErrorModel,
                >(f.frontends.deep_view()),
                Err(e) => frontend::build_frontends(sections_model(sections@)) == Err::<
                    Seq<frontend::FrontendModel>,
                    _,
                >(e@),
            },
    {
        match frontend::Frontend::parse_multiple(sections) {
            Ok(frontends) => Ok(Frontends { frontends }),
            Err(e) => Err(e),
        }
    }
}

/// Every validated backend section, in input order: servers to which traffic
/// can be forwarded.
pub struct Backends {
    pub backends: Vec<backend::Backend>,
}

impl Backends {
    /// Builds every backend section of the full section sequence, in input
    /// order, returning the first failure.
    pub fn try_from<'a>(sections: &'a [Section<'a>]) -> (r: Result<Backends, Error<'a>>)
        ensures
            match r {
                Ok(b) => backend::build_backends(sections_model(sections@)) == Ok::<
                    _,
                    ErrorModel,
                >(b.backends.deep_view()),
                Err(e) => backend::build_backends(sections_model(sections@)) == Err::<
                    Seq<backend::BackendModel>,
                    _,
                >(e@),
            },
    {
        match backend::Backend::parse_multiple(sections) {
            Ok(backends) => Ok(Backends { backends }),
            Err(e) => Err(e),
        }
    }
}

/// Placeholder for the listen sections: sockets on which to listen and where
/// to forward the traffic. The sections are recognized, but no validation is
/// applied to them yet, and callers may assume nothing of them.
pub struct Listens;

impl Listens {
    /// Accepts any section sequence; listen sections are not refined yet.
    pub fn try_from<'a>(sections: &'a [Section<'a>]) -> (r: Result<Listens, Error<'a>>)
        ensures
            r is Ok,
    {
        let _ = sections;
        Ok(Listens)
    }
}

/// Placeholder for the userlist sections: the sections are recognized, but
/// no validation is applied to them yet, and callers may assume nothing of
/// them.
pub struct Userlists;

impl Userlists {
    /// Accepts any section sequence; userlist sections are not refined yet.
    pub fn try_from<'a>(sections: &'a [Section<'a>]) -> (r: Result<Userlists, Error<'a>>)
        ensures
            r is Ok,
    {
        let _ = sections;
        Ok(Userlists)
    }
}

/// Mathematical value of a whole validated configuration.
pub struct ConfigModel {
    pub global: global::GlobalModel,
    pub frontends: Seq<frontend::FrontendModel>,
    pub backends: Seq<backend::BackendModel>,
}

/// What assembling the whole configuration yields: the global builder runs
/// first, then the frontend and the backend builders, and the first failure
/// aborts the assembly.
pub open spec fn build_config(ss: Seq<SectionModel>) -> Result<ConfigModel, ErrorModel> {
    match global::build_global(ss) {
        Err(e) => Err(e),
        Ok(g) => match frontend::build_frontends(ss) {
            Err(e) => Err(e),
            Ok(fs) => match backend::build_backends(ss) {
                Err(e) => Err(e),
                Ok(bs) => Ok(ConfigModel { global: g, frontends: fs, backends: bs }),
            },
        },
    }
}

/// Law: assembling a configuration is a pure function of the sections'
/// models. Two outcomes of the build on the same section sequence are equal:
/// no hidden mutable state affects the result.
pub proof fn lemma_build_config_deterministic(
    ss: Seq<SectionModel>,
    r1: Result<ConfigModel, ErrorModel>,
    r2: Result<ConfigModel, ErrorModel>,
)
    requires
        r1 == build_config(ss),
        r2 == build_config(ss),
    ensures
        r1 == r2,
{
}

/// The whole validated configuration.
pub struct Config {
    pub global: global::Global,
    pub default: Default,
    pub frontends: Frontends,
    pub backends: Backends,
    pub listen: Listens,
    pub userlists: Userlists,
}

impl View for Config {
    type V = ConfigModel;

    open spec fn view(&self) -> ConfigModel {
        ConfigModel {
            global: self.global@,
            frontends: self.frontends.frontends.deep_view(),
            backends: self.backends.backends.deep_view(),
        }
    }
}

impl Config {
    /// Assembles the whole configuration from the full section sequence,
    /// failing on the first section builder that fails; no configuration is
    /// partially built on failure.
    pub fn try_from<'a>(sections: &'a [Section<'a>]) -> (r: Result<Config, Error<'a>>)
        ensures
            result_model(r) == build_config(sections_model(sections@)),
    {
        let global = match global::Global::try_from(sections) {
            Ok(g) => g,
            Err(e) => {
                return Err(e);
            },
        };
        let default = match Default::try_from(sections) {
            Ok(d) => d,
            Err(e) => {
                return Err(e);
            },
        };
        let frontends = match Frontends::try_from(sections) {
            Ok(f) => f,
            Err(e) => {
                return Err(e);
            },
        };
        let backends = match Backends::try_from(sections) {
            Ok(b) => b,
            Err(e) => {
                return Err(e);
            },
        };
        let listen = match Listens::try_from(sections) {
            Ok(l) => l,
            Err(e) => {
                return Err(e);
            },
        };
        let userlists = match Userlists::try_from(sections) {
            Ok(u) => u,
            Err(e) => {
                return Err(e);
            },
        };
        Ok(Config { global, default, frontends, backends, listen, userlists })
    }
}

} // verus!
