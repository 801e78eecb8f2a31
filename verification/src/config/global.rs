use vstd::hash_map::StringHashMap;
use vstd::prelude::*;

use crate::config::{
    collect_global_sections, config_line_map, deep_value_map, global_sections,
    lemma_deep_value_map_insert, lemma_global_sections_are_global, result_model, section_lines,
    sections_model, Error, ErrorModel,
};
use crate::sections::lines::borrowed::Line;
use crate::sections::lines::owned::opt_to_owned;
use crate::sections::lines::LineModel;
use crate::sections::{Section, SectionModel};

verus! {

/// Mathematical value of the validated global section.
pub struct GlobalModel {
    pub config: Map<Seq<char>, Option<Seq<char>>>,
    pub user: Option<Seq<char>>,
    pub group: Option<Seq<char>>,
}

/// The system-user lines, in order.
pub open spec fn sys_user_lines(ls: Seq<LineModel>) -> Seq<LineModel>
    decreases ls.len(),
{
    if ls.len() == 0 {
        Seq::empty()
    } else {
        let rest = sys_user_lines(ls.drop_last());
        if ls.last() is SysUser {
            rest.push(ls.last())
        } else {
            rest
        }
    }
}

/// The system-group lines, in order.
pub open spec fn group_lines(ls: Seq<LineModel>) -> Seq<LineModel>
    decreases ls.len(),
{
    if ls.len() == 0 {
        Seq::empty()
    } else {
        let rest = group_lines(ls.drop_last());
        if ls.last() is Group {
            rest.push(ls.last())
        } else {
            rest
        }
    }
}

/// The lines that belong in no bucket of the global section: neither blank
/// nor config, system-user or system-group lines.
pub open spec fn wrong_global_lines(ls: Seq<LineModel>) -> Seq<LineModel>
    decreases ls.len(),
{
    if ls.len() == 0 {
        Seq::empty()
    } else {
        let rest = wrong_global_lines(ls.drop_last());
        match ls.last() {
            LineModel::Blank => rest,
            LineModel::Config { .. } => rest,
            LineModel::SysUser { .. } => rest,
            LineModel::Group { .. } => rest,
            _ => rest.push(ls.last()),
        }
    }
}

/// The name carried by a system-user line.
pub open spec fn sys_user_name(l: LineModel) -> Seq<char> {
    match l {
        LineModel::SysUser { name } => name,
        _ => Seq::empty(),
    }
}

/// The name carried by a group line.
pub open spec fn group_line_name(l: LineModel) -> Seq<char> {
    match l {
        LineModel::Group { name, .. } => name,
        _ => Seq::empty(),
    }
}

/// The member names carried by a group line.
pub open spec fn group_line_users(l: LineModel) -> Seq<Seq<char>> {
    match l {
        LineModel::Group { users, .. } => users,
        _ => Seq::empty(),
    }
}

/// Every collected system-user line is a system-user line.
pub proof fn lemma_sys_user_lines_are_sys_user(ls: Seq<LineModel>)
    ensures
        forall|i: int|
            0 <= i < sys_user_lines(ls).len() ==> #[trigger] sys_user_lines(ls)[i] is SysUser,
    decreases ls.len(),
{
    if ls.len() > 0 {
        lemma_sys_user_lines_are_sys_user(ls.drop_last());
    }
}

/// Every collected system-group line is a group line.
pub proof fn lemma_group_lines_are_group(ls: Seq<LineModel>)
    ensures
        forall|i: int| 0 <= i < group_lines(ls).len() ==> #[trigger] group_lines(ls)[i] is Group,
    decreases ls.len(),
{
    if ls.len() > 0 {
        lemma_group_lines_are_group(ls.drop_last());
    }
}

/// What extracting the system user and group from the collected lines
/// yields: at most one of each may appear, and a group line may carry no
/// member names.
pub open spec fn extract_sys_user_group_spec(
    users: Seq<LineModel>,
    groups: Seq<LineModel>,
) -> Result<(Option<Seq<char>>, Option<Seq<char>>), ErrorModel> {
    if users.len() > 1 {
        Err(ErrorModel::MultipleSysUsers(users))
    } else if groups.len() > 1 {
        Err(ErrorModel::MultipleSysGroups(groups))
    } else {
        let user = if users.len() == 0 {
            None
        } else {
            Some(sys_user_name(users.last()))
        };
        if groups.len() == 1 && group_line_users(groups.last()).len() > 0 {
            Err(ErrorModel::SysGroupHasUsers(groups.last()))
        } else {
            let group = if groups.len() == 0 {
                None
            } else {
                Some(group_line_name(groups.last()))
            };
            Ok((user, group))
        }
    }
}

/// What building the validated global section from a section sequence
/// yields: exactly one global section must exist; skipping blank lines, its
/// body is bucketed into config lines, system-user lines and system-group
/// lines, and any line outside those buckets fails the build.
pub open spec fn build_global(ss: Seq<SectionModel>) -> Result<GlobalModel, ErrorModel> {
    let gs = global_sections(ss);
    if gs.len() > 1 {
        Err(ErrorModel::MultipleGlobalEntries(gs))
    } else if gs.len() == 0 {
        Err(ErrorModel::MissingGlobal)
    } else {
        let ls = section_lines(gs[0]);
        if wrong_global_lines(ls).len() > 0 {
            Err(ErrorModel::WrongGlobalLines(wrong_global_lines(ls)))
        } else {
            match extract_sys_user_group_spec(sys_user_lines(ls), group_lines(ls)) {
                Err(e) => Err(e),
                Ok(ug) => Ok(
                    GlobalModel { config: config_line_map(ls), user: ug.0, group: ug.1 },
                ),
            }
        }
    }
}

/// Law: with no global section the build fails as missing; with more than
/// one it fails naming exactly the global entries found.
pub proof fn lemma_global_cardinality(ss: Seq<SectionModel>)
    ensures
        global_sections(ss).len() == 0 ==> build_global(ss) == Err::<GlobalModel, ErrorModel>(
            ErrorModel::MissingGlobal,
        ),
        global_sections(ss).len() > 1 ==> build_global(ss) == Err::<GlobalModel, ErrorModel>(
            ErrorModel::MultipleGlobalEntries(global_sections(ss)),
        ),
{
}

/// Law: a single global section whose lines all fall into the recognized
/// buckets builds successfully; its config mapping is the fold of its config
/// lines, the later line winning on a repeated key, and the system user and
/// group are taken from the at most single lines that name them.
pub proof fn lemma_global_success(ss: Seq<SectionModel>)
    requires
        global_sections(ss).len() == 1,
        wrong_global_lines(section_lines(global_sections(ss)[0])).len() == 0,
        sys_user_lines(section_lines(global_sections(ss)[0])).len() <= 1,
        group_lines(section_lines(global_sections(ss)[0])).len() <= 1,
        group_lines(section_lines(global_sections(ss)[0])).len() == 1 ==> group_line_users(
            group_lines(section_lines(global_sections(ss)[0]))[0],
        ).len() == 0,
    ensures
        build_global(ss) is Ok,
        build_global(ss)->Ok_0.config == config_line_map(section_lines(global_sections(ss)[0])),
        build_global(ss)->Ok_0.user == (if sys_user_lines(
            section_lines(global_sections(ss)[0]),
        ).len() == 0 {
            None
        } else {
            Some(sys_user_name(sys_user_lines(section_lines(global_sections(ss)[0]))[0]))
        }),
        build_global(ss)->Ok_0.group == (if group_lines(
            section_lines(global_sections(ss)[0]),
        ).len() == 0 {
            None
        } else {
            Some(group_line_name(group_lines(section_lines(global_sections(ss)[0]))[0]))
        }),
{
}

/// Law: a single group line with member names fails the extraction; the
/// same line with an empty member list succeeds and yields its group name.
pub proof fn lemma_sys_group_extraction(users: Seq<LineModel>, groups: Seq<LineModel>)
    requires
        users.len() <= 1,
        groups.len() == 1,
    ensures
        group_line_users(groups[0]).len() > 0 ==> extract_sys_user_group_spec(users, groups)
            == Err::<(Option<Seq<char>>, Option<Seq<char>>), ErrorModel>(
            ErrorModel::SysGroupHasUsers(groups[0]),
        ),
        group_line_users(groups[0]).len() == 0 ==> extract_sys_user_group_spec(users, groups)
            == Ok::<(Option<Seq<char>>, Option<Seq<char>>), ErrorModel>(
            (
                if users.len() == 0 {
                    None
                } else {
                    Some(sys_user_name(users[0]))
                },
                Some(group_line_name(groups[0])),
            ),
        ),
{
}

/// The validated global section: its config mapping and the optional system
/// user and group to run as.
pub struct Global {
    pub config: StringHashMap<Option<String>>,
    /// system user to run as
    pub user: Option<String>,
    /// system group to run as
    pub group: Option<String>,
}

impl View for Global {
    type V = GlobalModel;

    open spec fn view(&self) -> GlobalModel {
        GlobalModel {
            config: deep_value_map(self.config@),
            user: self.user.deep_view(),
            group: self.group.deep_view(),
        }
    }
}

/// Extracts the system user and group names from the collected system-user
/// and system-group lines: at most one of each may appear, and a group line
/// must carry no member names.
pub fn extract_sys_user_group<'a>(
    user_lines: Vec<&'a Line<'a>>,
    group_lines: Vec<&'a Line<'a>>,
) -> (r: Result<(Option<String>, Option<String>), Error<'a>>)
    requires
        forall|i: int| 0 <= i < user_lines@.len() ==> #[trigger] user_lines@[i]@ is SysUser,
        forall|i: int| 0 <= i < group_lines@.len() ==> #[trigger] group_lines@[i]@ is Group,
    ensures
        match r {
            Ok(ug) => extract_sys_user_group_spec(user_lines.deep_view(), group_lines.deep_view())
                == Ok::<_, ErrorModel>((ug.0.deep_view(), ug.1.deep_view())),
            Err(e) => extract_sys_user_group_spec(
                user_lines.deep_view(),
                group_lines.deep_view(),
            ) == Err::<(Option<Seq<char>>, Option<Seq<char>>), _>(e@),
        },
{
    if user_lines.len() > 1 {
        return Err(Error::MultipleSysUsers(user_lines));
    }
    if group_lines.len() > 1 {
        return Err(Error::MultipleSysGroups(group_lines));
    }

    let mut users = user_lines;
    let user: Option<String> = match users.pop() {
        None => None,
        Some(Line::SysUser { name }) => Some((*name).to_owned()),
        _ => vstd::pervasive::unreached(),
    };

    let mut groups = group_lines;
    let group: Option<String> = match groups.pop() {
        None => None,
        Some(l) => match l {
            Line::Group { name, users: members, .. } => {
                if members.len() > 0 {
                    return Err(Error::SysGroupHasUsers(l));
                }
                Some((*name).to_owned())
            },
            _ => vstd::pervasive::unreached(),
        },
    };

    Ok((user, group))
}

impl Global {
    /// Builds the validated global section from the full section sequence:
    /// fails unless exactly one global section exists; skipping blank lines,
    /// buckets its body into the config mapping and the system-user and
    /// system-group lines, reports every line outside those buckets, and
    /// extracts the optional system user and group names.
    pub fn try_from<'a>(sections: &'a [Section<'a>]) -> (r: Result<Global, Error<'a>>)
        ensures
            result_model(r) == build_global(sections_model(sections@)),
    {
        let ghost ssd = sections_model(sections@);
        let globals = collect_global_sections(sections);
        if globals.len() > 1 {
            return Err(Error::MultipleGlobalEntries(globals));
        }
        if globals.len() == 0 {
            return Err(Error::MissingGlobal);
        }
        proof {
            lemma_global_sections_are_global(ssd);
            assert(globals.deep_view()[0] == global_sections(ssd)[0]);
        }
        let lines: &'a Vec<Line<'a>> = match globals[0] {
            Section::Global { lines } => lines,
            _ => vstd::pervasive::unreached(),
        };
        let ghost ldv = lines.deep_view();

        let mut config: StringHashMap<Option<String>> = StringHashMap::new();
        let mut user_lines: Vec<&'a Line<'a>> = Vec::new();
        let mut group_lines_found: Vec<&'a Line<'a>> = Vec::new();
        let mut other: Vec<&'a Line<'a>> = Vec::new();
        proof {
            assert(deep_value_map(config@) =~= config_line_map(ldv.take(0)));
        }
        let mut j: usize = 0;
        while j < lines.len()
            invariant
                j <= lines.len(),
                ldv == lines.deep_view(),
                deep_value_map(config@) == config_line_map(ldv.take(j as int)),
                user_lines.deep_view() == sys_user_lines(ldv.take(j as int)),
                group_lines_found.deep_view() == group_lines(ldv.take(j as int)),
                other.deep_view() == wrong_global_lines(ldv.take(j as int)),
            decreases lines.len() - j,
        {
            let l = &lines[j];
            proof {
                assert(ldv.take(j + 1).drop_last() =~= ldv.take(j as int));
                assert(ldv.take(j + 1).last() == l@);
            }
            match l {
                Line::Blank => {},
                Line::Config { key, value, .. } => {
                    let ghost pre = config@;
                    let v = opt_to_owned(value);
                    config.insert((*key).to_owned(), v);
                    proof {
                        lemma_deep_value_map_insert(pre, key@, v);
                    }
                },
                Line::SysUser { .. } => {
                    user_lines.push(l);
                    proof {
                        assert(user_lines.deep_view() =~= sys_user_lines(ldv.take(j + 1)));
                    }
                },
                Line::Group { .. } => {
                    group_lines_found.push(l);
                    proof {
                        assert(group_lines_found.deep_view() =~= group_lines(ldv.take(j + 1)));
                    }
                },
                _ => {
                    other.push(l);
                    proof {
                        assert(other.deep_view() =~= wrong_global_lines(ldv.take(j + 1)));
                    }
                },
            }
            j = j + 1;
        }
        proof {
            assert(ldv.take(lines@.len() as int) =~= ldv);
        }
        if other.len() > 0 {
            return Err(Error::WrongGlobalLines(other));
        }
        proof {
            assert(wrong_global_lines(ldv) =~= Seq::<LineModel>::empty());
            lemma_sys_user_lines_are_sys_user(ldv);
            lemma_group_lines_are_group(ldv);
            assert forall|i: int| 0 <= i < user_lines@.len() implies #[trigger] user_lines@[i]@
                is SysUser by {
                assert(user_lines.deep_view()[i] == user_lines@[i]@);
            }
            assert forall|i: int| 0 <= i < group_lines_found@.len()
                implies #[trigger] group_lines_found@[i]@ is Group by {
                assert(group_lines_found.deep_view()[i] == group_lines_found@[i]@);
            }
        }
        let ug = match extract_sys_user_group(user_lines, group_lines_found) {
            Ok(ug) => ug,
            Err(e) => {
                return Err(e);
            },
        };
        Ok(Global { config, user: ug.0, group: ug.1 })
    }
}

} // verus!
