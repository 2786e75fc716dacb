//! What the settings screens are made of: their rows, the values the rows hand back, and how a
//! screen divides its rectangle between the list, a description strip and the button hints.
use vstd::prelude::*;

verus! {

/// A rectangle on screen.
#[derive(Clone, Copy, Debug, PartialEq, Eq, Structural)]
pub struct Rect {
    pub x: i32,
    pub y: i32,
    pub w: u32,
    pub h: u32,
}

/// The stylesheet measures a settings list is laid out by.
#[derive(Clone, Copy, Debug, PartialEq, Eq, Structural)]
pub struct ListMetrics {
    /// The UI font's size.
    pub font_size: u32,
    pub padding_y: i32,
    pub margin_x: i32,
    pub margin_y: i32,
}

/// A value an edited row hands back.
#[derive(Clone, Debug)]
pub enum Value {
    Bool(bool),
    Int(i32),
    String(String),
}

impl Value {
    pub fn as_bool(&self) -> (r: Option<bool>)
        ensures
            r == match self {
                Value::Bool(b) => Some(*b),
                _ => None,
            },
    {
        match self {
            Value::Bool(b) => Some(*b),
            _ => None,
        }
    }

    pub fn as_string(&self) -> (r: Option<String>)
        ensures
            match self {
                Value::String(t) => r is Some && r->0@ == t@,
                _ => r is None,
            },
    {
        match self {
            Value::String(t) => Some(t.clone()),
            _ => None,
        }
    }

    pub fn as_int(&self) -> (r: Option<i32>)
        ensures
            r == match self {
                Value::Int(i) => Some(*i),
                _ => None,
            },
    {
        match self {
            Value::Int(i) => Some(*i),
            _ => None,
        }
    }
}

/// The control on the right of a row. Labels are locale keys.
#[derive(Clone, Debug)]
pub enum Control {
    /// On or off.
    Toggle(bool),
    /// A number stepped within `min..=max`; zero shows `zero_label` rather than the number.
    Number { value: i32, min: i32, max: i32, step: i32, zero_label: &'static str },
    /// One of `options`, locale keys.
    Select { selected: usize, options: Vec<&'static str> },
    /// One of `options`, shown as they are.
    SelectText { selected: usize, choices: Vec<String> },
    /// A percentage within `min..=max`.
    Percentage { value: i32, min: i32, max: i32 },
    /// Editable text.
    Text(String),
    /// Text that cannot be edited.
    Label(String),
}

/// The views of a list of locale keys.
pub open spec fn keys_view(v: Seq<&'static str>) -> Seq<Seq<char>> {
    v.map_values(|k: &'static str| k@)
}

/// `c` is a select of `options` with `selected` chosen.
pub open spec fn is_select(c: Control, selected: usize, options: Seq<Seq<char>>) -> bool {
    c matches Control::Select { selected: s, options: o } && s == selected && keys_view(o@)
        == options
}

/// One row of a settings list: its label's locale key and its control.
#[derive(Clone, Debug)]
pub struct Row {
    pub label: &'static str,
    pub control: Control,
}

/// Where a settings screen is on its list, kept while the screen is closed and reopened.
#[derive(Clone, Copy, Debug, PartialEq, Eq, Structural)]
pub struct ChildState {
    pub selected: usize,
}

/// How a screen's rectangle is divided.
#[derive(Clone, Copy, Debug, PartialEq, Eq, Structural)]
pub struct ListLayout {
    /// Where the list goes.
    pub list: Rect,
    /// Each row's height.
    pub row_height: u32,
    /// The strip under the list that describes the highlighted row, on screens that have one.
    pub description: Option<Rect>,
}

/// The arithmetic of a layout stays within its integer types: nothing here is clamped, so a
/// rectangle narrower than its margins, or hints above the screen's top, are outside what a
/// layout is made of.
pub open spec fn layout_fits(rect: Rect, hints_y: i32, m: ListMetrics) -> bool {
    &&& i32::MIN <= hints_y - rect.y <= i32::MAX
    &&& m.font_size + (m.padding_y as u32) <= u32::MAX
    &&& m.font_size + (m.padding_y as u32) + (m.margin_y as u32) <= u32::MAX
    &&& i32::MIN <= rect.x + m.margin_x <= i32::MAX
    &&& (m.margin_x as u32) * 2 <= rect.w
}

/// The list's rectangle: inset by the horizontal margin, from the top of the screen's rect and
/// `height` tall.
pub open spec fn list_rect(rect: Rect, m: ListMetrics, height: u32) -> Rect {
    Rect {
        x: (rect.x + m.margin_x) as i32,
        y: rect.y,
        w: (rect.w - (m.margin_x as u32) * 2) as u32,
        h: height,
    }
}

/// A row's height: the font plus its padding.
pub open spec fn row_height(m: ListMetrics) -> u32 {
    (m.font_size + (m.padding_y as u32)) as u32
}

/// A list that runs down to the button hints, which start at `hints_y`.
pub open spec fn plain_layout(rect: Rect, hints_y: i32, m: ListMetrics) -> ListLayout {
    ListLayout {
        list: list_rect(rect, m, (hints_y - rect.y) as u32),
        row_height: row_height(m),
        description: None,
    }
}

/// A list with a one-row description strip between it and the button hints. The list gives up
/// the strip and a margin, and scrolls for whatever no longer fits.
pub open spec fn described_layout(rect: Rect, hints_y: i32, m: ListMetrics) -> ListLayout {
    let available = (hints_y - rect.y) as u32;
    let strip = row_height(m);
    let taken = strip + (m.margin_y as u32);
    let list_height = if available >= taken {
        (available - taken) as u32
    } else {
        0u32
    };
    ListLayout {
        list: list_rect(rect, m, list_height),
        row_height: strip,
        description: Some(
            Rect {
                x: (rect.x + m.margin_x) as i32,
                y: (rect.y + (list_height as i32)) as i32,
                w: (rect.w - (m.margin_x as u32) * 2) as u32,
                h: strip,
            },
        ),
    }
}

fn list_rect_exec(rect: Rect, m: ListMetrics, height: u32) -> (r: Rect)
    requires
        i32::MIN <= rect.x + m.margin_x <= i32::MAX,
        (m.margin_x as u32) * 2 <= rect.w,
    ensures
        r == list_rect(rect, m, height),
{
    Rect { x: rect.x + m.margin_x, y: rect.y, w: rect.w - m.margin_x as u32 * 2, h: height }
}

/// The layout of a screen that is all list; see [`plain_layout`].
pub fn plain_list_layout(rect: Rect, hints_y: i32, m: ListMetrics) -> (l: ListLayout)
    requires
        layout_fits(rect, hints_y, m),
    ensures
        l == plain_layout(rect, hints_y, m),
{
    let height = (hints_y - rect.y) as u32;
    ListLayout {
        list: list_rect_exec(rect, m, height),
        row_height: m.font_size + m.padding_y as u32,
        description: None,
    }
}

/// The layout of a screen with a description strip; see [`described_layout`].
pub fn described_list_layout(rect: Rect, hints_y: i32, m: ListMetrics) -> (l: ListLayout)
    requires
        layout_fits(rect, hints_y, m),
        i32::MIN <= rect.y + (described_layout(rect, hints_y, m).list.h as i32) <= i32::MAX,
    ensures
        l == described_layout(rect, hints_y, m),
{
    let available = (hints_y - rect.y) as u32;
    let strip = m.font_size + m.padding_y as u32;
    let list_height = available.saturating_sub(strip + m.margin_y as u32);
    ListLayout {
        list: list_rect_exec(rect, m, list_height),
        row_height: strip,
        description: Some(
            Rect {
                x: rect.x + m.margin_x,
                y: rect.y + list_height as i32,
                w: rect.w - m.margin_x as u32 * 2,
                h: strip,
            },
        ),
    }
}

/// The description strip sits directly under the list and never overlaps it: the list ends
/// where the strip begins, and together with the margin they take no more than the space above
/// the hints.
pub proof fn lemma_description_under_list(rect: Rect, hints_y: i32, m: ListMetrics)
    requires
        layout_fits(rect, hints_y, m),
        0 <= hints_y - rect.y,
        0 <= m.padding_y,
        0 <= m.margin_y,
        i32::MIN <= rect.y + (described_layout(rect, hints_y, m).list.h as i32) <= i32::MAX,
        described_layout(rect, hints_y, m).list.h <= i32::MAX,
    ensures
        ({
            let l = described_layout(rect, hints_y, m);
            let d = l.description->0;
            &&& d.y == l.list.y + l.list.h
            &&& l.list.h + d.h + m.margin_y <= hints_y - rect.y || l.list.h == 0
        }),
{
}

} // verus!
