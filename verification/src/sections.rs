use vstd::prelude::*;

pub mod lines;

use lines::borrowed::{Address, Line};
use lines::{AddressModel, LineModel};

verus! {

/// One contiguous block of configuration lines under a header keyword,
/// borrowing its text from the source buffer. Frontends may additionally
/// carry a header-level bind address with an optional config string.
#[derive(Clone, Debug)]
pub enum Section<'a> {
    Global { lines: Vec<Line<'a>> },
    Frontend {
        proxy: &'a str,
        lines: Vec<Line<'a>>,
        header_addr: Option<(Address<'a>, Option<&'a str>)>,
    },
    Backend { proxy: &'a str, lines: Vec<Line<'a>> },
    Listen { proxy: &'a str, lines: Vec<Line<'a>> },
    Userlist { name: &'a str, lines: Vec<Line<'a>> },
}

/// Mathematical value of a section.
pub enum SectionModel {
    Global { lines: Seq<LineModel> },
    Frontend {
        proxy: Seq<char>,
        lines: Seq<LineModel>,
        header_addr: Option<(AddressModel, Option<Seq<char>>)>,
    },
    Backend { proxy: Seq<char>, lines: Seq<LineModel> },
    Listen { proxy: Seq<char>, lines: Seq<LineModel> },
    Userlist { name: Seq<char>, lines: Seq<LineModel> },
}

impl<'a> View for Section<'a> {
    type V = SectionModel;

    open spec fn view(&self) -> SectionModel {
        match self {
            Section::Global { lines } => SectionModel::Global { lines: lines.deep_view() },
            Section::Frontend { proxy, lines, header_addr } => SectionModel::Frontend {
                proxy: proxy@,
                lines: lines.deep_view(),
                header_addr: header_addr.deep_view(),
            },
            Section::Backend { proxy, lines } => SectionModel::Backend {
                proxy: proxy@,
                lines: lines.deep_view(),
            },
            Section::Listen { proxy, lines } => SectionModel::Listen {
                proxy: proxy@,
                lines: lines.deep_view(),
            },
            Section::Userlist { name, lines } => SectionModel::Userlist {
                name: name@,
                lines: lines.deep_view(),
            },
        }
    }
}

impl<'a> DeepView for Section<'a> {
    type V = SectionModel;

    open spec fn deep_view(&self) -> SectionModel {
        self.view()
    }
}

} // verus!
