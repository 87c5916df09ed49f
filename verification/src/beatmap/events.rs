//! The records of the `[Events]` section.

use vstd::prelude::*;

verus! {

/// A background image: `0,start,"file",x,y`.
#[derive(Debug, Default, Clone, PartialEq, Eq)]
pub struct Background {
    pub start_time: usize,
    pub filename: String,
    pub x_offset: isize,
    pub y_offset: isize,
}

/// What a [`Background`] holds.
pub struct BackgroundModel {
    pub start_time: usize,
    pub filename: Seq<char>,
    pub x_offset: isize,
    pub y_offset: isize,
}

impl DeepView for Background {
    type V = BackgroundModel;

    open spec fn deep_view(&self) -> BackgroundModel {
        BackgroundModel {
            start_time: self.start_time,
            filename: self.filename@,
            x_offset: self.x_offset,
            y_offset: self.y_offset,
        }
    }
}

impl View for Background {
    type V = BackgroundModel;

    open spec fn view(&self) -> BackgroundModel {
        self.deep_view()
    }
}

/// A video: `1,start,file,x,y` or `Video,start,file,x,y`.
#[derive(Debug, Default, Clone, PartialEq, Eq)]
pub struct Video {
    pub start_time: usize,
    pub filename: String,
    pub x_offset: isize,
    pub y_offset: isize,
}

/// What a [`Video`] holds.
pub struct VideoModel {
    pub start_time: usize,
    pub filename: Seq<char>,
    pub x_offset: isize,
    pub y_offset: isize,
}

impl DeepView for Video {
    type V = VideoModel;

    open spec fn deep_view(&self) -> VideoModel {
        VideoModel {
            start_time: self.start_time,
            filename: self.filename@,
            x_offset: self.x_offset,
            y_offset: self.y_offset,
        }
    }
}

impl View for Video {
    type V = VideoModel;

    open spec fn view(&self) -> VideoModel {
        self.deep_view()
    }
}

/// A break in play: `2,start,end` or `Break,start,end`. The end is kept as
/// it was written.
#[derive(Debug, Default, Clone, PartialEq, Eq)]
pub struct Break {
    pub start_time: usize,
    pub end_time: String,
}

/// What a [`Break`] holds.
pub struct BreakModel {
    pub start_time: usize,
    pub end_time: Seq<char>,
}

impl DeepView for Break {
    type V = BreakModel;

    open spec fn deep_view(&self) -> BreakModel {
        BreakModel { start_time: self.start_time, end_time: self.end_time@ }
    }
}

impl View for Break {
    type V = BreakModel;

    open spec fn view(&self) -> BreakModel {
        self.deep_view()
    }
}

} // verus!
