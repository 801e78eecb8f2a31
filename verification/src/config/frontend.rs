use vstd::hash_map::StringHashMap;
use vstd::prelude::*;

use crate::config::{
    acl_set_of, acls_set, config_line_map, deep_value_map, first_bad_acl, insert_acl,
    lemma_deep_value_map_insert, lemma_first_bad_acl_append, lemma_first_bad_acl_single,
    option_line_map, result_model, section_lines, section_proxy, sections_model, Acl, AclModel,
    Address, Error, ErrorModel,
};
use crate::sections::lines::borrowed::Line;
use crate::sections::lines::owned::opt_to_owned;
use crate::sections::lines::{AddressModel, BackendModifier, LineModel};
use crate::sections::{Section, SectionModel};

verus! {

/// Mathematical value of one backend reference held by a frontend.
pub struct BackendModel {
    pub name: Seq<char>,
    pub modifier: Option<BackendModifier>,
    pub condition: Option<Seq<char>>,
}

/// One rule by which a frontend selects a backend, in the order written.
#[derive(Clone, Debug)]
pub struct Backend {
    pub name: String,
    pub modifier: Option<BackendModifier>,
    pub condition: Option<String>,
}

impl View for Backend {
    type V = BackendModel;

    open spec fn view(&self) -> BackendModel {
        BackendModel {
            name: self.name@,
            modifier: self.modifier,
            condition: self.condition.deep_view(),
        }
    }
}

impl DeepView for Backend {
    type V = BackendModel;

    open spec fn deep_view(&self) -> BackendModel {
        self.view()
    }
}

/// Mathematical value of a frontend's single listening point.
pub struct BindModel {
    pub addr: AddressModel,
    pub config: Option<Seq<char>>,
}

/// A frontend's single listening point: an address and an optional
/// socket-level config string.
#[derive(Clone, Debug)]
pub struct Bind {
    pub addr: Address,
    pub config: Option<String>,
}

impl View for Bind {
    type V = BindModel;

    open spec fn view(&self) -> BindModel {
        BindModel { addr: self.addr@, config: self.config.deep_view() }
    }
}

impl DeepView for Bind {
    type V = BindModel;

    open spec fn deep_view(&self) -> BindModel {
        self.view()
    }
}

/// Mathematical value of a validated frontend section.
pub struct FrontendModel {
    pub name: Seq<char>,
    pub config: Map<Seq<char>, Option<Seq<char>>>,
    pub options: Map<Seq<char>, Option<Seq<char>>>,
    pub acls: Set<AclModel>,
    pub backends: Seq<BackendModel>,
    pub bind: BindModel,
}

/// The backend references carried by the backend lines of a body, in order.
pub open spec fn backend_refs_of(ls: Seq<LineModel>) -> Seq<BackendModel>
    decreases ls.len(),
{
    if ls.len() == 0 {
        Seq::empty()
    } else {
        let rest = backend_refs_of(ls.drop_last());
        match ls.last() {
            LineModel::Backend { name, modifier, condition, .. } => rest.push(
                BackendModel { name, modifier, condition },
            ),
            _ => rest,
        }
    }
}

/// The bind lines of a body, in order.
pub open spec fn bind_lines_of(ls: Seq<LineModel>) -> Seq<LineModel>
    decreases ls.len(),
{
    if ls.len() == 0 {
        Seq::empty()
    } else {
        let rest = bind_lines_of(ls.drop_last());
        if ls.last() is Bind {
            rest.push(ls.last())
        } else {
            rest
        }
    }
}

/// Every collected bind line is a bind line.
pub proof fn lemma_bind_lines_are_bind(ls: Seq<LineModel>)
    ensures
        forall|i: int|
            0 <= i < bind_lines_of(ls).len() ==> #[trigger] bind_lines_of(ls)[i] is Bind,
    decreases ls.len(),
{
    if ls.len() > 0 {
        lemma_bind_lines_are_bind(ls.drop_last());
    }
}

/// The lines a frontend body cannot hold: neither blank or comment lines nor
/// config, option, acl, backend or bind lines.
pub open spec fn wrong_frontend_lines(ls: Seq<LineModel>) -> Seq<LineModel>
    decreases ls.len(),
{
    if ls.len() == 0 {
        Seq::empty()
    } else {
        let rest = wrong_frontend_lines(ls.drop_last());
        match ls.last() {
            LineModel::Blank => rest,
            LineModel::Comment(..) => rest,
            LineModel::Config { .. } => rest,
            LineModel::Option { .. } => rest,
            LineModel::Acl { .. } => rest,
            LineModel::Backend { .. } => rest,
            LineModel::Bind { .. } => rest,
            _ => rest.push(ls.last()),
        }
    }
}

/// The address carried by a bind line.
pub open spec fn bind_line_addr(l: LineModel) -> AddressModel {
    match l {
        LineModel::Bind { addr, .. } => addr,
        _ => AddressModel { host: Seq::empty(), port: None, wildcard: false },
    }
}

/// The config string carried by a bind line.
pub open spec fn bind_line_value(l: LineModel) -> Option<Seq<char>> {
    match l {
        LineModel::Bind { value, .. } => value,
        _ => None,
    }
}

/// The header-level bind address and config string of a frontend section.
pub open spec fn section_header_addr(s: SectionModel) -> Option<
    (AddressModel, Option<Seq<char>>),
> {
    match s {
        SectionModel::Frontend { header_addr, .. } => header_addr,
        _ => None,
    }
}

/// What building one frontend section yields: the scan fails on the first
/// acl line without rule text; every unrecognized line is then reported; at
/// most one body bind line is tolerated; then exactly one bind source must
/// resolve, either the header-level address or the single body bind line.
pub open spec fn build_frontend(s: SectionModel) -> Result<FrontendModel, ErrorModel> {
    let ls = section_lines(s);
    match first_bad_acl(ls) {
        Some(name) => Err(ErrorModel::AclWithoutRule(name)),
        None => {
            if wrong_frontend_lines(ls).len() > 0 {
                Err(ErrorModel::WrongFrontendLines(wrong_frontend_lines(ls)))
            } else if bind_lines_of(ls).len() > 1 {
                Err(ErrorModel::MoreThenOneBind(bind_lines_of(ls)))
            } else {
                let header = section_header_addr(s);
                if bind_lines_of(ls).len() == 0 && header is None {
                    Err(ErrorModel::NoBind)
                } else if bind_lines_of(ls).len() == 1 && header is Some {
                    Err(ErrorModel::HeaderAndBindLine)
                } else {
                    let bind = if bind_lines_of(ls).len() == 1 {
                        BindModel {
                            addr: bind_line_addr(bind_lines_of(ls)[0]),
                            config: bind_line_value(bind_lines_of(ls)[0]),
                        }
                    } else {
                        BindModel { addr: header->Some_0.0, config: header->Some_0.1 }
                    };
                    Ok(
                        FrontendModel {
                            name: section_proxy(s),
                            config: config_line_map(ls),
                            options: option_line_map(ls),
                            acls: acl_set_of(ls),
                            backends: backend_refs_of(ls),
                            bind,
                        },
                    )
                }
            }
        },
    }
}

/// What building every frontend section of a sequence yields: the frontends
/// in input order, or the error of the first one that fails.
pub open spec fn build_frontends(ss: Seq<SectionModel>) -> Result<Seq<FrontendModel>, ErrorModel>
    decreases ss.len(),
{
    if ss.len() == 0 {
        Ok(Seq::empty())
    } else {
        let rest = build_frontends(ss.drop_first());
        if ss[0] is Frontend {
            match build_frontend(ss[0]) {
                Err(e) => Err(e),
                Ok(f) => match rest {
                    Err(e) => Err(e),
                    Ok(fs) => Ok(seq![f] + fs),
                },
            }
        } else {
            rest
        }
    }
}

/// Law: an acl line with a name and no rule text fails the frontend build
/// with exactly that name, whatever else the body holds.
pub proof fn lemma_frontend_acl_without_rule(s: SectionModel, name: Seq<char>)
    requires
        first_bad_acl(section_lines(s)) == Some(name),
    ensures
        build_frontend(s) == Err::<FrontendModel, ErrorModel>(ErrorModel::AclWithoutRule(name)),
{
}

/// Law: exactly one bind source must resolve. With a clean body, a header
/// address and no body bind line resolve to the header address; one body
/// bind line and no header resolve to that line's address; both present is
/// ambiguous and neither is missing; more than one body bind line fails
/// naming them all.
pub proof fn lemma_bind_resolution(s: SectionModel)
    requires
        first_bad_acl(section_lines(s)) is None,
        wrong_frontend_lines(section_lines(s)).len() == 0,
    ensures
        bind_lines_of(section_lines(s)).len() > 1 ==> build_frontend(s) == Err::<
            FrontendModel,
            ErrorModel,
        >(ErrorModel::MoreThenOneBind(bind_lines_of(section_lines(s)))),
        bind_lines_of(section_lines(s)).len() == 0 && section_header_addr(s) is None
            ==> build_frontend(s) == Err::<FrontendModel, ErrorModel>(ErrorModel::NoBind),
        bind_lines_of(section_lines(s)).len() == 1 && section_header_addr(s) is Some
            ==> build_frontend(s) == Err::<FrontendModel, ErrorModel>(
            ErrorModel::HeaderAndBindLine,
        ),
        bind_lines_of(section_lines(s)).len() == 0 && section_header_addr(s) is Some
            ==> build_frontend(s) is Ok && build_frontend(s)->Ok_0.bind.addr
            == section_header_addr(s)->Some_0.0,
        bind_lines_of(section_lines(s)).len() == 1 && section_header_addr(s) is None
            ==> build_frontend(s) is Ok && build_frontend(s)->Ok_0.bind.addr == bind_line_addr(
            bind_lines_of(section_lines(s))[0],
        ),
{
}

/// A validated frontend section: a socket accepting clients.
pub struct Frontend {
    pub name: String,
    pub config: StringHashMap<Option<String>>,
    pub options: StringHashMap<Option<String>>,
    pub acls: Vec<Acl>,
    pub backends: Vec<Backend>,
    pub bind: Bind,
}

impl View for Frontend {
    type V = FrontendModel;

    open spec fn view(&self) -> FrontendModel {
        FrontendModel {
            name: self.name@,
            config: deep_value_map(self.config@),
            options: deep_value_map(self.options@),
            acls: acls_set(self.acls@),
            backends: self.backends.deep_view(),
            bind: self.bind@,
        }
    }
}

impl DeepView for Frontend {
    type V = FrontendModel;

    open spec fn deep_view(&self) -> FrontendModel {
        self.view()
    }
}

impl Frontend {
    /// Builds one frontend section: scans its body, failing on the first acl
    /// line without rule text, buckets the lines, reports every unrecognized
    /// line, tolerates at most one body bind line, and resolves the single
    /// bind source from the body line or the header-level address.
    pub fn try_from<'a>(entry: &'a Section<'a>) -> (r: Result<Frontend, Error<'a>>)
        requires
            entry@ is Frontend,
        ensures
            result_model(r) == build_frontend(entry@),
    {
        let (proxy, lines, header_addr): (
            &'a str,
            &'a Vec<Line<'a>>,
            &'a Option<(crate::sections::lines::borrowed::Address<'a>, Option<&'a str>)>,
        ) = match entry {
            Section::Frontend { proxy, lines, header_addr } => {
                proof {
                    assert(section_lines(entry@) == lines.deep_view());
                    assert(section_proxy(entry@) == (*proxy)@);
                    assert(section_header_addr(entry@) == header_addr.deep_view());
                }
                (*proxy, lines, header_addr)
            },
            _ => vstd::pervasive::unreached(),
        };
        let ghost ldv = lines.deep_view();

        let mut config: StringHashMap<Option<String>> = StringHashMap::new();
        let mut options: StringHashMap<Option<String>> = StringHashMap::new();
        let mut acls: Vec<Acl> = Vec::new();
        let mut backends: Vec<Backend> = Vec::new();
        let mut binds: Vec<&'a Line<'a>> = Vec::new();
        let mut other: Vec<&'a Line<'a>> = Vec::new();
        proof {
            assert(deep_value_map(config@) =~= config_line_map(ldv.take(0)));
            assert(deep_value_map(options@) =~= option_line_map(ldv.take(0)));
            assert(acls_set(acls@) =~= acl_set_of(ldv.take(0)));
        }
        let mut j: usize = 0;
        while j < lines.len()
            invariant
                j <= lines.len(),
                ldv == lines.deep_view(),
                entry@ is Frontend,
                section_lines(entry@) == ldv,
                section_proxy(entry@) == proxy@,
                first_bad_acl(ldv.take(j as int)) is None,
                deep_value_map(config@) == config_line_map(ldv.take(j as int)),
                deep_value_map(options@) == option_line_map(ldv.take(j as int)),
                acls_set(acls@) == acl_set_of(ldv.take(j as int)),
                backends.deep_view() == backend_refs_of(ldv.take(j as int)),
                binds.deep_view() == bind_lines_of(ldv.take(j as int)),
                other.deep_view() == wrong_frontend_lines(ldv.take(j as int)),
            decreases lines.len() - j,
        {
            let l = &lines[j];
            proof {
                assert(ldv.take(j + 1) =~= ldv.take(j as int) + seq![ldv[j as int]]);
                lemma_first_bad_acl_append(ldv.take(j as int), seq![ldv[j as int]]);
                lemma_first_bad_acl_single(ldv[j as int]);
                assert(ldv.take(j + 1).drop_last() =~= ldv.take(j as int));
                assert(ldv.take(j + 1).last() == l@);
            }
            match l {
                Line::Blank => {},
                Line::Comment(..) => {},
                Line::Config { key, value, .. } => {
                    let ghost pre = config@;
                    let v = opt_to_owned(value);
                    config.insert((*key).to_owned(), v);
                    proof {
                        lemma_deep_value_map_insert(pre, key@, v);
                    }
                },
                Line::Option { keyword, value, .. } => {
                    let ghost pre = options@;
                    let v = opt_to_owned(value);
                    options.insert((*keyword).to_owned(), v);
                    proof {
                        lemma_deep_value_map_insert(pre, keyword@, v);
                    }
                },
                Line::Acl { name, rule, .. } => {
                    match rule {
                        Some(rule) => {
                            insert_acl(
                                &mut acls,
                                Acl { name: (*name).to_owned(), rule: (*rule).to_owned() },
                            );
                        },
                        None => {
                            proof {
                                lemma_first_bad_acl_append(ldv.take(j + 1), ldv.skip(j + 1));
                                assert(ldv =~= ldv.take(j + 1) + ldv.skip(j + 1));
                            }
                            return Err(Error::AclWithoutRule(*name));
                        },
                    }
                },
                Line::Backend { name, modifier, condition, .. } => {
                    backends.push(
                        Backend {
                            name: (*name).to_owned(),
                            modifier: *modifier,
                            condition: opt_to_owned(condition),
                        },
                    );
                    proof {
                        assert(backends.deep_view() =~= backend_refs_of(ldv.take(j + 1)));
                    }
                },
                Line::Bind { .. } => {
                    binds.push(l);
                    proof {
                        assert(binds.deep_view() =~= bind_lines_of(ldv.take(j + 1)));
                    }
                },
                _ => {
                    other.push(l);
                    proof {
                        assert(other.deep_view() =~= wrong_frontend_lines(ldv.take(j + 1)));
                    }
                },
            }
            j = j + 1;
        }
        proof {
            assert(ldv.take(lines@.len() as int) =~= ldv);
        }
        if other.len() > 0 {
            return Err(Error::WrongFrontendLines(other));
        }
        proof {
            assert(wrong_frontend_lines(ldv) =~= Seq::<LineModel>::empty());
        }
        if binds.len() > 1 {
            return Err(Error::MoreThenOneBind(binds));
        }
        let bind: Bind = if binds.len() == 1 {
            proof {
                lemma_bind_lines_are_bind(ldv);
                assert(binds.deep_view()[0] == binds@[0]@);
            }
            match binds[0] {
                Line::Bind { addr, value, .. } => {
                    match header_addr {
                        Some(..) => {
                            return Err(Error::HeaderAndBindLine);
                        },
                        None => Bind { addr: Address::from(addr), config: opt_to_owned(value) },
                    }
                },
                _ => vstd::pervasive::unreached(),
            }
        } else {
            match header_addr {
                None => {
                    return Err(Error::NoBind);
                },
                Some((addr, value)) => Bind {
                    addr: Address::from(addr),
                    config: opt_to_owned(value),
                },
            }
        };
        Ok(
            Frontend {
                name: proxy.to_owned(),
                config,
                options,
                acls,
                backends,
                bind,
            },
        )
    }

    /// Builds every frontend section of the full section sequence, in input
    /// order, returning the first failure.
    pub fn parse_multiple<'a>(entries: &'a [Section<'a>]) -> (r: Result<Vec<Frontend>, Error<'a>>)
        ensures
            match r {
                Ok(fs) => build_frontends(sections_model(entries@)) == Ok::<_, ErrorModel>(
                    fs.deep_view(),
                ),
                Err(e) => build_frontends(sections_model(entries@)) == Err::<
                    Seq<FrontendModel>,
                    _,
                >(e@),
            },
    {
        let ghost ssd = sections_model(entries@);
        let mut out: Vec<Frontend> = Vec::new();
        proof {
            assert(ssd.skip(0) =~= ssd);
            if build_frontends(ssd) is Ok {
                assert(out.deep_view() + build_frontends(ssd)->Ok_0 =~= build_frontends(
                    ssd,
                )->Ok_0);
            }
        }
        let mut i: usize = 0;
        while i < entries.len()
            invariant
                i <= entries.len(),
                ssd == sections_model(entries@),
                build_frontends(ssd) == (match build_frontends(ssd.skip(i as int)) {
                    Ok(fs) => Ok::<Seq<FrontendModel>, ErrorModel>(out.deep_view() + fs),
                    Err(e) => Err::<Seq<FrontendModel>, ErrorModel>(e),
                }),
            decreases entries.len() - i,
        {
            let e = &entries[i];
            proof {
                assert(ssd.skip(i as int)[0] == e@);
                assert(ssd.skip(i as int).drop_first() =~= ssd.skip(i + 1));
            }
            if matches!(e, Section::Frontend { .. }) {
                match Frontend::try_from(e) {
                    Ok(f) => {
                        let ghost pre = out.deep_view();
                        out.push(f);
                        proof {
                            assert(out.deep_view() =~= pre.push(f@));
                            if build_frontends(ssd.skip(i + 1)) is Ok {
                                let fs = build_frontends(ssd.skip(i + 1))->Ok_0;
                                assert(pre.push(f@) + fs =~= pre + (seq![f@] + fs));
                            }
                        }
                    },
                    Err(err) => {
                        return Err(err);
                    },
                }
            } else {
                proof {
                    assert(!(e@ is Frontend));
                }
            }
            i = i + 1;
        }
        proof {
            assert(ssd.skip(entries@.len() as int) =~= Seq::<SectionModel>::empty());
            assert(out.deep_view() + Seq::<FrontendModel>::empty() =~= out.deep_view());
        }
        Ok(out)
    }
}

} // verus!
