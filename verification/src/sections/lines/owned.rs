use vstd::prelude::*;

use crate::config::{Address, Password};
use crate::sections::lines::borrowed;
use crate::sections::lines::{BackendModifier, LineModel};

verus! {

/// One classified configuration line whose text fields are independently
/// owned and outlive the source buffer.
#[derive(Clone, Debug)]
pub enum Line {
    Blank,
    Comment(String),
    Config { key: String, value: Option<String>, comment: Option<String> },
    Option { keyword: String, value: Option<String>, comment: Option<String> },
    Acl { name: String, rule: Option<String>, comment: Option<String> },
    Server { name: String, addr: Address, option: Option<String>, comment: Option<String> },
    Bind { addr: Address, value: Option<String>, comment: Option<String> },
    Backend {
        name: String,
        modifier: Option<BackendModifier>,
        condition: Option<String>,
        comment: Option<String>,
    },
    Group { name: String, users: Vec<String>, comment: Option<String> },
    User {
        name: String,
        password: Password,
        groups: Vec<String>,
        comment: Option<String>,
    },
    SysUser { name: String },
}

impl View for Line {
    type V = LineModel;

    open spec fn view(&self) -> LineModel {
        match self {
            Line::Blank => LineModel::Blank,
            Line::Comment(s) => LineModel::Comment(s@),
            Line::Config { key, value, comment } => LineModel::Config {
                key: key@,
                value: value.deep_view(),
                comment: comment.deep_view(),
            },
            Line::Option { keyword, value, comment } => LineModel::Option {
                keyword: keyword@,
                value: value.deep_view(),
                comment: comment.deep_view(),
            },
            Line::Acl { name, rule, comment } => LineModel::Acl {
                name: name@,
                rule: rule.deep_view(),
                comment: comment.deep_view(),
            },
            Line::Server { name, addr, option, comment } => LineModel::Server {
                name: name@,
                addr: addr@,
                option: option.deep_view(),
                comment: comment.deep_view(),
            },
            Line::Bind { addr, value, comment } => LineModel::Bind {
                addr: addr@,
                value: value.deep_view(),
                comment: comment.deep_view(),
            },
            Line::Backend { name, modifier, condition, comment } => LineModel::Backend {
                name: name@,
                modifier: *modifier,
                condition: condition.deep_view(),
                comment: comment.deep_view(),
            },
            Line::Group { name, users, comment } => LineModel::Group {
                name: name@,
                users: users.deep_view(),
                comment: comment.deep_view(),
            },
            Line::User { name, password, groups, comment } => LineModel::User {
                name: name@,
                password: password@,
                groups: groups.deep_view(),
                comment: comment.deep_view(),
            },
            Line::SysUser { name } => LineModel::SysUser { name: name@ },
        }
    }
}

impl DeepView for Line {
    type V = LineModel;

    open spec fn deep_view(&self) -> LineModel {
        self.view()
    }
}

/// Copies an optional borrowed text field into owned storage.
pub(crate) fn opt_to_owned<'a>(o: &Option<&'a str>) -> (r: Option<String>)
    ensures
        r.deep_view() == o.deep_view(),
{
    match o {
        Some(s) => Some((*s).to_owned()),
        None => None,
    }
}

/// Copies a list of borrowed names into owned storage, preserving order.
fn names_to_owned<'a>(v: &Vec<&'a str>) -> (r: Vec<String>)
    ensures
        r.deep_view() == v.deep_view(),
{
    let mut r: Vec<String> = Vec::new();
    let mut i: usize = 0;
    while i < v.len()
        invariant
            i <= v.len(),
            r@.len() == i,
            forall|j: int| 0 <= j < i ==> #[trigger] r@[j]@ == v@[j]@,
        decreases v.len() - i,
    {
        let s = v[i].to_owned();
        r.push(s);
        i = i + 1;
    }
    proof {
        assert forall|j: int| 0 <= j < r@.len() implies r.deep_view()[j]
            == v.deep_view()[j] by {
            assert(r@[j]@ == v@[j]@);
        }
        assert(r.deep_view() =~= v.deep_view());
    }
    r
}

impl Line {
    /// Deep-copies a borrowed line into an owned one, preserving every field,
    /// including nested member lists and address and credential values: the
    /// owned result has the same model as the borrowed argument.
    pub fn from<'a>(line: &borrowed::Line<'a>) -> (r: Line)
        ensures
            r@ == line@,
    {
        match line {
            borrowed::Line::Blank => Line::Blank,
            borrowed::Line::Comment(s) => Line::Comment((*s).to_owned()),
            borrowed::Line::Config { key, value, comment } => Line::Config {
                key: (*key).to_owned(),
                value: opt_to_owned(value),
                comment: opt_to_owned(comment),
            },
            borrowed::Line::Option { keyword, value, comment } => Line::Option {
                keyword: (*keyword).to_owned(),
                value: opt_to_owned(value),
                comment: opt_to_owned(comment),
            },
            borrowed::Line::Acl { name, rule, comment } => Line::Acl {
                name: (*name).to_owned(),
                rule: opt_to_owned(rule),
                comment: opt_to_owned(comment),
            },
            borrowed::Line::Server { name, addr, option, comment } => Line::Server {
                name: (*name).to_owned(),
                addr: Address::from(addr),
                option: opt_to_owned(option),
                comment: opt_to_owned(comment),
            },
            borrowed::Line::Bind { addr, value, comment } => Line::Bind {
                addr: Address::from(addr),
                value: opt_to_owned(value),
                comment: opt_to_owned(comment),
            },
            borrowed::Line::Backend { name, modifier, condition, comment } => Line::Backend {
                name: (*name).to_owned(),
                modifier: *modifier,
                condition: opt_to_owned(condition),
                comment: opt_to_owned(comment),
            },
            borrowed::Line::Group { name, users, comment } => Line::Group {
                name: (*name).to_owned(),
                users: names_to_owned(users),
                comment: opt_to_owned(comment),
            },
            borrowed::Line::User { name, password, groups, comment } => Line::User {
                name: (*name).to_owned(),
                password: Password::from(password),
                groups: names_to_owned(groups),
                comment: opt_to_owned(comment),
            },
            borrowed::Line::SysUser { name } => Line::SysUser { name: (*name).to_owned() },
        }
    }
}

} // verus!
