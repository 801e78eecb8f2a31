use vstd::hash_map::StringHashMap;
use vstd::prelude::*;

use crate::config::{
    acl_set_of, acls_set, config_line_map, deep_value_map, first_bad_acl, insert_acl,
    lemma_deep_value_map_insert, lemma_first_bad_acl_append, lemma_first_bad_acl_single,
    option_line_map, result_model, section_lines, section_proxy, sections_model, Acl, AclModel,
    Address, Error, ErrorModel, Server, ServerModel,
};
use crate::sections::lines::borrowed::Line;
use crate::sections::lines::owned::opt_to_owned;
use crate::sections::lines::LineModel;
use crate::sections::{Section, SectionModel};

verus! {

/// Mathematical value of a validated backend section.
pub struct BackendModel {
    pub name: Seq<char>,
    pub config: Map<Seq<char>, Option<Seq<char>>>,
    pub options: Map<Seq<char>, Option<Seq<char>>>,
    pub acls: Set<AclModel>,
    pub servers: Seq<ServerModel>,
}

/// The server values carried by the server lines of a body, in order;
/// duplicate names are kept.
pub open spec fn servers_of(ls: Seq<LineModel>) -> Seq<ServerModel>
    decreases ls.len(),
{
    if ls.len() == 0 {
        Seq::empty()
    } else {
        let rest = servers_of(ls.drop_last());
        match ls.last() {
            LineModel::Server { name, addr, option, .. } => rest.push(
                ServerModel { name, addr, option },
            ),
            _ => rest,
        }
    }
}

/// The lines a backend body cannot hold: neither blank or comment lines nor
/// config, option, acl or server lines.
pub open spec fn wrong_backend_lines(ls: Seq<LineModel>) -> Seq<LineModel>
    decreases ls.len(),
{
    if ls.len() == 0 {
        Seq::empty()
    } else {
        let rest = wrong_backend_lines(ls.drop_last());
        match ls.last() {
            LineModel::Blank => rest,
            LineModel::Comment(..) => rest,
            LineModel::Config { .. } => rest,
            LineModel::Option { .. } => rest,
            LineModel::Acl { .. } => rest,
            LineModel::Server { .. } => rest,
            _ => rest.push(ls.last()),
        }
    }
}

/// What building one backend section yields: the scan fails on the first acl
/// line without rule text; every unrecognized line is then reported; on
/// success the body is bucketed into the config and option mappings, the acl
/// set and the ordered server list.
pub open spec fn build_backend(s: SectionModel) -> Result<BackendModel, ErrorModel> {
    let ls = section_lines(s);
    match first_bad_acl(ls) {
        Some(name) => Err(ErrorModel::AclWithoutRule(name)),
        None => {
            if wrong_backend_lines(ls).len() > 0 {
                Err(ErrorModel::WrongBackendLines(wrong_backend_lines(ls)))
            } else {
                Ok(
                    BackendModel {
                        name: section_proxy(s),
                        config: config_line_map(ls),
                        options: option_line_map(ls),
                        acls: acl_set_of(ls),
                        servers: servers_of(ls),
                    },
                )
            }
        },
    }
}

/// What building every backend section of a sequence yields: the backends in
/// input order, or the error of the first one that fails.
pub open spec fn build_backends(ss: Seq<SectionModel>) -> Result<Seq<BackendModel>, ErrorModel>
    decreases ss.len(),
{
    if ss.len() == 0 {
        Ok(Seq::empty())
    } else {
        let rest = build_backends(ss.drop_first());
        if ss[0] is Backend {
            match build_backend(ss[0]) {
                Err(e) => Err(e),
                Ok(b) => match rest {
                    Err(e) => Err(e),
                    Ok(bs) => Ok(seq![b] + bs),
                },
            }
        } else {
            rest
        }
    }
}

/// Law: an acl line with a name and no rule text fails the backend build
/// with exactly that name, whatever else the body holds.
pub proof fn lemma_backend_acl_without_rule(s: SectionModel, name: Seq<char>)
    requires
        first_bad_acl(section_lines(s)) == Some(name),
    ensures
        build_backend(s) == Err::<BackendModel, ErrorModel>(ErrorModel::AclWithoutRule(name)),
{
}

/// Law: a backend build that succeeds keeps every server line's value in
/// input order; server lines that share a name are all kept, without
/// deduplication.
pub proof fn lemma_backend_keeps_servers(s: SectionModel)
    requires
        build_backend(s) is Ok,
    ensures
        build_backend(s)->Ok_0.servers == servers_of(section_lines(s)),
{
}

/// A validated backend section: servers to which traffic can be forwarded.
pub struct Backend {
    pub name: String,
    pub config: StringHashMap<Option<String>>,
    pub options: StringHashMap<Option<String>>,
    pub acls: Vec<Acl>,
    pub servers: Vec<Server>,
}

impl View for Backend {
    type V = BackendModel;

    open spec fn view(&self) -> BackendModel {
        BackendModel {
            name: self.name@,
            config: deep_value_map(self.config@),
            options: deep_value_map(self.options@),
            acls: acls_set(self.acls@),
            servers: self.servers.deep_view(),
        }
    }
}

impl DeepView for Backend {
    type V = BackendModel;

    open spec fn deep_view(&self) -> BackendModel {
        self.view()
    }
}

impl Backend {
    /// Builds one backend section: scans its body, failing on the first acl
    /// line without rule text, buckets the lines, reports every unrecognized
    /// line, and otherwise assembles the mappings, acl set and server list.
    pub fn try_from<'a>(entry: &'a Section<'a>) -> (r: Result<Backend, Error<'a>>)
        requires
            entry@ is Backend,
        ensures
            result_model(r) == build_backend(entry@),
    {
        let (proxy, lines): (&'a str, &'a Vec<Line<'a>>) = match entry {
            Section::Backend { proxy, lines } => {
                proof {
                    assert(section_lines(entry@) == lines.deep_view());
                    assert(section_proxy(entry@) == (*proxy)@);
                }
                (*proxy, lines)
            },
            _ => vstd::pervasive::unreached(),
        };
        let ghost ldv = lines.deep_view();

        let mut config: StringHashMap<Option<String>> = StringHashMap::new();
        let mut options: StringHashMap<Option<String>> = StringHashMap::new();
        let mut acls: Vec<Acl> = Vec::new();
        let mut servers: Vec<Server> = Vec::new();
        let mut other: Vec<&'a Line<'a>> = Vec::new();
        proof {
            assert(deep_value_map(config@) =~= config_line_map(ldv.take(0)));
            assert(deep_value_map(options@) =~= option_line_map(ldv.take(0)));
            assert(acls_set(acls@) =~= acl_set_of(ldv.take(0)));
        }
        let mut j: usize = 0;
        while j < lines.len()
            invariant
                j <= lines.len(),
                ldv == lines.deep_view(),
                entry@ is Backend,
                section_lines(entry@) == ldv,
                section_proxy(entry@) == proxy@,
                first_bad_acl(ldv.take(j as int)) is None,
                deep_value_map(config@) == config_line_map(ldv.take(j as int)),
                deep_value_map(options@) == option_line_map(ldv.take(j as int)),
                acls_set(acls@) == acl_set_of(ldv.take(j as int)),
                servers.deep_view() == servers_of(ldv.take(j as int)),
                other.deep_view() == wrong_backend_lines(ldv.take(j as int)),
            decreases lines.len() - j,
        {
            let l = &lines[j];
            proof {
                assert(ldv.take(j + 1) =~= ldv.take(j as int) + seq![ldv[j as int]]);
                lemma_first_bad_acl_append(ldv.take(j as int), seq![ldv[j as int]]);
                lemma_first_bad_acl_single(ldv[j as int]);
                assert(ldv.take(j + 1).drop_last() =~= ldv.take(j as int));
                assert(ldv.take(j + 1).last() == l@);
            }
            match l {
                Line::Blank => {},
                Line::Comment(..) => {},
                Line::Config { key, value, .. } => {
                    let ghost pre = config@;
                    let v = opt_to_owned(value);
                    config.insert((*key).to_owned(), v);
                    proof {
                        lemma_deep_value_map_insert(pre, key@, v);
                    }
                },
                Line::Option { keyword, value, .. } => {
                    let ghost pre = options@;
                    let v = opt_to_owned(value);
                    options.insert((*keyword).to_owned(), v);
                    proof {
                        lemma_deep_value_map_insert(pre, keyword@, v);
                    }
                },
                Line::Acl { name, rule, .. } => {
                    match rule {
                        Some(rule) => {
                            insert_acl(
                                &mut acls,
                                Acl { name: (*name).to_owned(), rule: (*rule).to_owned() },
                            );
                        },
                        None => {
                            proof {
                                lemma_first_bad_acl_append(ldv.take(j + 1), ldv.skip(j + 1));
                                assert(ldv =~= ldv.take(j + 1) + ldv.skip(j + 1));
                            }
                            return Err(Error::AclWithoutRule(*name));
                        },
                    }
                },
                Line::Server { name, addr, option, .. } => {
                    servers.push(
                        Server {
                            name: (*name).to_owned(),
                            addr: Address::from(addr),
                            option: opt_to_owned(option),
                        },
                    );
                    proof {
                        assert(servers.deep_view() =~= servers_of(ldv.take(j + 1)));
                    }
                },
                _ => {
                    other.push(l);
                    proof {
                        assert(other.deep_view() =~= wrong_backend_lines(ldv.take(j + 1)));
                    }
                },
            }
            j = j + 1;
        }
        proof {
            assert(ldv.take(lines@.len() as int) =~= ldv);
        }
        if other.len() > 0 {
            return Err(Error::WrongBackendLines(other));
        }
        proof {
            assert(wrong_backend_lines(ldv) =~= Seq::<LineModel>::empty());
        }
        Ok(
            Backend {
                name: proxy.to_owned(),
                config,
                options,
                acls,
                servers,
            },
        )
    }

    /// Builds every backend section of the full section sequence, in input
    /// order, returning the first failure.
    pub fn parse_multiple<'a>(entries: &'a [Section<'a>]) -> (r: Result<Vec<Backend>, Error<'a>>)
        ensures
            match r {
                Ok(bs) => build_backends(sections_model(entries@)) == Ok::<_, ErrorModel>(
                    bs.deep_view(),
                ),
                Err(e) => build_backends(sections_model(entries@)) == Err::<
                    Seq<BackendModel>,
                    _,
                >(e@),
            },
    {
        let ghost ssd = sections_model(entries@);
        let mut out: Vec<Backend> = Vec::new();
        proof {
            assert(ssd.skip(0) =~= ssd);
            if build_backends(ssd) is Ok {
                assert(out.deep_view() + build_backends(ssd)->Ok_0 =~= build_backends(
                    ssd,
                )->Ok_0);
            }
        }
        let mut i: usize = 0;
        while i < entries.len()
            invariant
                i <= entries.len(),
                ssd == sections_model(entries@),
                build_backends(ssd) == (match build_backends(ssd.skip(i as int)) {
                    Ok(bs) => Ok::<Seq<BackendModel>, ErrorModel>(out.deep_view() + bs),
                    Err(e) => Err::<Seq<BackendModel>, ErrorModel>(e),
                }),
            decreases entries.len() - i,
        {
            let e = &entries[i];
            proof {
                assert(ssd.skip(i as int)[0] == e@);
                assert(ssd.skip(i as int).drop_first() =~= ssd.skip(i + 1));
            }
            if matches!(e, Section::Backend { .. }) {
                match Backend::try_from(e) {
                    Ok(b) => {
                        let ghost pre = out.deep_view();
                        out.push(b);
                        proof {
                            assert(out.deep_view() =~= pre.push(b@));
                            if build_backends(ssd.skip(i + 1)) is Ok {
                                let bs = build_backends(ssd.skip(i + 1))->Ok_0;
                                assert(pre.push(b@) + bs =~= pre + (seq![b@] + bs));
                            }
                        }
                    },
                    Err(err) => {
                        return Err(err);
                    },
                }
            } else {
                proof {
                    assert(!(e@ is Backend));
                }
            }
            i = i + 1;
        }
        proof {
            assert(ssd.skip(entries@.len() as int) =~= Seq::<SectionModel>::empty());
            assert(out.deep_view() + Seq::<BackendModel>::empty() =~= out.deep_view());
        }
        Ok(out)
    }
}

} // verus!
