use vstd::prelude::*;

use crate::sections::lines::{AddressModel, BackendModifier, LineModel, PasswordModel};

verus! {

/// An address whose host text points into the source buffer.
#[derive(Clone, Copy, Debug)]
pub struct Address<'a> {
    pub host: &'a str,
    pub port: Option<u16>,
    pub wildcard: bool,
}

impl<'a> View for Address<'a> {
    type V = AddressModel;

    open spec fn view(&self) -> AddressModel {
        AddressModel { host: self.host@, port: self.port, wildcard: self.wildcard }
    }
}

impl<'a> DeepView for Address<'a> {
    type V = AddressModel;

    open spec fn deep_view(&self) -> AddressModel {
        self.view()
    }
}

/// A credential whose text points into the source buffer.
#[derive(Clone, Copy, Debug)]
pub enum Password<'a> {
    Plain(&'a str),
    Hashed(&'a str),
}

impl<'a> View for Password<'a> {
    type V = PasswordModel;

    open spec fn view(&self) -> PasswordModel {
        match self {
            Password::Plain(s) => PasswordModel::Plain(s@),
            Password::Hashed(s) => PasswordModel::Hashed(s@),
        }
    }
}

impl<'a> DeepView for Password<'a> {
    type V = PasswordModel;

    open spec fn deep_view(&self) -> PasswordModel {
        self.view()
    }
}

/// One classified configuration line whose text fields point into the
/// source buffer.
#[derive(Clone, Debug)]
pub enum Line<'a> {
    Blank,
    Comment(&'a str),
    Config { key: &'a str, value: Option<&'a str>, comment: Option<&'a str> },
    Option { keyword: &'a str, value: Option<&'a str>, comment: Option<&'a str> },
    Acl { name: &'a str, rule: Option<&'a str>, comment: Option<&'a str> },
    Server {
        name: &'a str,
        addr: Address<'a>,
        option: Option<&'a str>,
        comment: Option<&'a str>,
    },
    Bind { addr: Address<'a>, value: Option<&'a str>, comment: Option<&'a str> },
    Backend {
        name: &'a str,
        modifier: Option<BackendModifier>,
        condition: Option<&'a str>,
        comment: Option<&'a str>,
    },
    Group { name: &'a str, users: Vec<&'a str>, comment: Option<&'a str> },
    User {
        name: &'a str,
        password: Password<'a>,
        groups: Vec<&'a str>,
        comment: Option<&'a str>,
    },
    SysUser { name: &'a str },
}

impl<'a> View for Line<'a> {
    type V = LineModel;

    open spec fn view(&self) -> LineModel {
        match self {
            Line::Blank => LineModel::Blank,
            Line::Comment(s) => LineModel::Comment(s@),
            Line::Config { key, value, comment } => LineModel::Config {
                key: key@,
                value: value.deep_view(),
                comment: comment.deep_view(),
            },
            Line::Option { keyword, value, comment } => LineModel::Option {
                keyword: keyword@,
                value: value.deep_view(),
                comment: comment.deep_view(),
            },
            Line::Acl { name, rule, comment } => LineModel::Acl {
                name: name@,
                rule: rule.deep_view(),
                comment: comment.deep_view(),
            },
            Line::Server { name, addr, option, comment } => LineModel::Server {
                name: name@,
                addr: addr@,
                option: option.deep_view(),
                comment: comment.deep_view(),
            },
            Line::Bind { addr, value, comment } => LineModel::Bind {
                addr: addr@,
                value: value.deep_view(),
                comment: comment.deep_view(),
            },
            Line::Backend { name, modifier, condition, comment } => LineModel::Backend {
                name: name@,
                modifier: *modifier,
                condition: condition.deep_view(),
                comment: comment.deep_view(),
            },
            Line::Group { name, users, comment } => LineModel::Group {
                name: name@,
                users: users.deep_view(),
                comment: comment.deep_view(),
            },
            Line::User { name, password, groups, comment } => LineModel::User {
                name: name@,
                password: password@,
                groups: groups.deep_view(),
                comment: comment.deep_view(),
            },
            Line::SysUser { name } => LineModel::SysUser { name: name@ },
        }
    }
}

impl<'a> DeepView for Line<'a> {
    type V = LineModel;

    open spec fn deep_view(&self) -> LineModel {
        self.view()
    }
}

} // verus!
