use vstd::prelude::*;

use crate::editor::controls::{welcome_actions, RgbChannel, RgbControl, WelcomeAction};
use crate::editor::geometry::ScreenRect;
use crate::editor::state::{AppState, ButtonHit};
use crate::editor::view::{rgb_row, rgb_row_layout, sat_add16, sat_sub, RgbRowLayout};

verus! {

/// The welcome screen's actions, top to bottom.
pub open spec fn welcome_action_seq() -> Seq<WelcomeAction> {
    seq![WelcomeAction::NewImage, WelcomeAction::NewAnimation, WelcomeAction::OpenFile, WelcomeAction::Quit]
}

/// The title row of the welcome screen in `inner`: the block of ten rows
/// it starts is centered.
pub open spec fn welcome_start(inner: ScreenRect) -> int {
    inner.y + sat_sub(inner.height as int, 10) / 2
}

/// The row of the `i`th welcome button: three rows below the title, then
/// every second row.
pub open spec fn welcome_row(inner: ScreenRect, i: int) -> int {
    sat_add16(welcome_start(inner), 3 + 2 * i)
}

/// The `i`th welcome button: twenty cells wide (or the whole width),
/// centered.
pub open spec fn welcome_button(inner: ScreenRect, i: int) -> ButtonHit<WelcomeAction> {
    let w: int = if 20 < inner.width { 20 } else { inner.width as int };
    ButtonHit {
        action: welcome_action_seq()[i],
        area: ScreenRect {
            x: (inner.x + sat_sub(inner.width as int, w) / 2) as u16,
            y: welcome_row(inner, i) as u16,
            width: w as u16,
            height: 1,
        },
    }
}

/// The rows of the welcome screen's text: title, subtitle and message.
#[derive(Debug, Clone, Copy)]
pub struct WelcomeLayout {
    pub title_row: u16,
    pub subtitle_row: u16,
    pub message_row: u16,
}

/// Two plain rows below the title's, then the buttons while rows remain,
/// then the message one row below the row after the last button.
pub open spec fn welcome_placed(inner: ScreenRect, r: WelcomeLayout, buttons: Seq<ButtonHit<WelcomeAction>>) -> bool {
    let bottom = inner.y + inner.height;
    &&& r.title_row == welcome_start(inner)
    &&& r.subtitle_row == sat_add16(welcome_start(inner), 1)
    &&& buttons.len() <= 4
    &&& forall|i: int| 0 <= i < buttons.len() ==> #[trigger] buttons[i] == welcome_button(inner, i)
    &&& forall|i: int| 0 <= i < buttons.len() ==> welcome_row(inner, i) < bottom
    &&& buttons.len() < 4 ==> welcome_row(inner, buttons.len() as int) >= bottom
    &&& r.message_row == sat_add16(welcome_row(inner, buttons.len() as int), 1)
}

/// The RGB dialog's preview swatch and the rectangle its channel rows go
/// in: side by side when `inner` is at least 54 cells wide, else stacked.
pub open spec fn mixer_preview(inner: ScreenRect) -> ScreenRect {
    if inner.width < 54 {
        ScreenRect {
            x: inner.x,
            y: sat_add16(inner.y as int, 2) as u16,
            width: if inner.width < 20 { inner.width } else { 20 },
            height: 4,
        }
    } else {
        ScreenRect { x: inner.x, y: sat_add16(inner.y as int, 2) as u16, width: 16, height: 6 }
    }
}

/// Where the RGB dialog's channel rows go.
pub open spec fn mixer_controls(inner: ScreenRect) -> ScreenRect {
    let p = mixer_preview(inner);
    if inner.width < 54 {
        ScreenRect {
            x: inner.x,
            y: sat_add16(sat_add16(p.y as int, p.height as int), 1) as u16,
            width: inner.width,
            height: sat_sub(inner.height as int, 8) as u16,
        }
    } else {
        ScreenRect {
            x: sat_add16(inner.x as int, 19) as u16,
            y: sat_add16(inner.y as int, 2) as u16,
            width: sat_sub(inner.width as int, 19) as u16,
            height: 9,
        }
    }
}

/// The row of the `i`th channel: every third row of the controls.
pub open spec fn mixer_channel_row(inner: ScreenRect, i: int) -> ScreenRect {
    let c = mixer_controls(inner);
    ScreenRect { x: c.x, y: sat_add16(c.y as int, 3 * i) as u16, width: c.width, height: 1 }
}

/// The channels in dialog order.
pub open spec fn channel_seq() -> Seq<RgbChannel> {
    seq![RgbChannel::Red, RgbChannel::Green, RgbChannel::Blue]
}

/// The controls a channel row offers the mouse: its step-down button, then
/// its slider and step-up button where they fit.
pub open spec fn channel_hits(channel: RgbChannel, row: RgbRowLayout) -> Seq<ButtonHit<RgbControl>> {
    let dec = match row.decrement {
        Some(a) => seq![ButtonHit { action: RgbControl::Decrement(channel), area: a }],
        None => Seq::empty(),
    };
    let rest = match (row.slider, row.increment) {
        (Some(s), Some(i)) => seq![
            ButtonHit { action: RgbControl::Slider(channel), area: s },
            ButtonHit { action: RgbControl::Increment(channel), area: i },
        ],
        _ => Seq::empty(),
    };
    dec + rest
}

/// The controls of the first `n` channel rows of the dialog in `inner`.
pub open spec fn mixer_hits(inner: ScreenRect, n: int) -> Seq<ButtonHit<RgbControl>>
    decreases n,
{
    if n <= 0 {
        Seq::empty()
    } else {
        mixer_hits(inner, n - 1) + channel_hits(channel_seq()[n - 1], rgb_row(mixer_channel_row(inner, n - 1)))
    }
}

/// The RGB dialog's parts: the preview, the three channel rows and the row
/// of the hex line.
#[derive(Debug, Clone, Copy)]
pub struct MixerLayout {
    pub preview: ScreenRect,
    pub rows: [RgbRowLayout; 3],
    pub row_areas: [ScreenRect; 3],
    pub hex_row: u16,
}

impl AppState {
    /// Lays the welcome screen out inside `inner` and records its buttons
    /// for the mouse; nothing else changes.
    pub fn place_welcome(&mut self, inner: ScreenRect) -> (r: WelcomeLayout)
        requires
            inner.x + inner.width <= u16::MAX,
            inner.y + inner.height <= u16::MAX,
        ensures
            welcome_placed(inner, r, final(self).areas.welcome_action_areas@),
            *final(self) == (AppState {
                areas: crate::editor::state::HitAreas {
                    welcome_action_areas: final(self).areas.welcome_action_areas,
                    ..old(self).areas
                },
                ..*old(self)
            }),
    {
        let start = inner.y + inner.height.saturating_sub(10) / 2;
        let bottom = inner.y + inner.height;
        let width: u16 = if 20 < inner.width { 20 } else { inner.width };
        let x = inner.x + inner.width.saturating_sub(width) / 2;
        let actions = welcome_actions();
        let mut hits: Vec<ButtonHit<WelcomeAction>> = Vec::new();
        let mut y = start.saturating_add(3);
        let mut i: usize = 0;
        while i < actions.len()
            invariant
                actions@ == welcome_action_seq(),
                i <= 4,
                hits@.len() == i,
                start == welcome_start(inner),
                bottom == inner.y + inner.height,
                width == (if 20 < inner.width { 20 } else { inner.width as int }),
                x == inner.x + sat_sub(inner.width as int, width as int) / 2,
                y == welcome_row(inner, i as int),
                forall|j: int| 0 <= j < i ==> #[trigger] hits@[j] == welcome_button(inner, j),
                forall|j: int| 0 <= j < i ==> welcome_row(inner, j) < bottom,
            ensures
                hits@.len() <= 4,
                y == welcome_row(inner, hits@.len() as int),
                forall|j: int| 0 <= j < hits@.len() ==> #[trigger] hits@[j] == welcome_button(inner, j),
                forall|j: int| 0 <= j < hits@.len() ==> welcome_row(inner, j) < bottom,
                hits@.len() < 4 ==> welcome_row(inner, hits@.len() as int) >= bottom,
            decreases actions.len() - i,
        {
            if y >= bottom {
                break;
            }
            hits.push(ButtonHit { action: actions[i], area: ScreenRect { x, y, width, height: 1 } });
            y = y.saturating_add(2);
            i += 1;
        }
        self.areas.welcome_action_areas = hits;
        WelcomeLayout { title_row: start, subtitle_row: start.saturating_add(1), message_row: y.saturating_add(1) }
    }

    /// Lays the RGB dialog out inside `inner` and records its controls for
    /// the mouse; nothing else changes.
    pub fn place_rgb_mixer(&mut self, inner: ScreenRect) -> (r: MixerLayout)
        requires
            inner.y + inner.height <= u16::MAX,
        ensures
            r.preview == mixer_preview(inner),
            forall|i: int| 0 <= i < 3 ==> #[trigger] r.row_areas@[i] == mixer_channel_row(inner, i),
            forall|i: int| 0 <= i < 3 ==> #[trigger] r.rows@[i] == rgb_row(mixer_channel_row(inner, i)),
            r.hex_row == inner.y + sat_sub(inner.height as int, 3),
            final(self).areas.modal_rgb_areas@ == mixer_hits(inner, 3),
            *final(self) == (AppState {
                areas: crate::editor::state::HitAreas {
                    modal_rgb_areas: final(self).areas.modal_rgb_areas,
                    ..old(self).areas
                },
                ..*old(self)
            }),
    {
        let compact = inner.width < 54;
        let preview = if compact {
            ScreenRect {
                x: inner.x,
                y: inner.y.saturating_add(2),
                width: if inner.width < 20 { inner.width } else { 20 },
                height: 4,
            }
        } else {
            ScreenRect { x: inner.x, y: inner.y.saturating_add(2), width: 16, height: 6 }
        };
        let controls = if compact {
            ScreenRect {
                x: inner.x,
                y: preview.y.saturating_add(preview.height).saturating_add(1),
                width: inner.width,
                height: inner.height.saturating_sub(8),
            }
        } else {
            ScreenRect {
                x: inner.x.saturating_add(19),
                y: inner.y.saturating_add(2),
                width: inner.width.saturating_sub(19),
                height: 9,
            }
        };
        let channels = crate::editor::controls::rgb_channels();
        let mut hits: Vec<ButtonHit<RgbControl>> = Vec::new();
        let mut areas: [ScreenRect; 3] = [ScreenRect::empty(), ScreenRect::empty(), ScreenRect::empty()];
        let mut rows: [RgbRowLayout; 3] = [
            RgbRowLayout { decrement: None, slider: None, increment: None, value_x: 0 },
            RgbRowLayout { decrement: None, slider: None, increment: None, value_x: 0 },
            RgbRowLayout { decrement: None, slider: None, increment: None, value_x: 0 },
        ];
        let mut i: usize = 0;
        while i < 3
            invariant
                i <= 3,
                channels@ == channel_seq(),
                controls == mixer_controls(inner),
                hits@ == mixer_hits(inner, i as int),
                forall|j: int| 0 <= j < i ==> #[trigger] areas@[j] == mixer_channel_row(inner, j),
                forall|j: int| 0 <= j < i ==> #[trigger] rows@[j] == rgb_row(mixer_channel_row(inner, j)),
            decreases 3 - i,
        {
            let offset: u16 = (i as u16) * 3;
            let area = ScreenRect { x: controls.x, y: controls.y.saturating_add(offset), width: controls.width, height: 1 };
            let row = rgb_row_layout(area);
            let channel = channels[i];
            let ghost before = hits@;
            match row.decrement {
                Some(a) => hits.push(ButtonHit { action: RgbControl::Decrement(channel), area: a }),
                None => {},
            }
            match (row.slider, row.increment) {
                (Some(s), Some(inc)) => {
                    hits.push(ButtonHit { action: RgbControl::Slider(channel), area: s });
                    hits.push(ButtonHit { action: RgbControl::Increment(channel), area: inc });
                },
                _ => {},
            }
            proof {
                assert(hits@ =~= before + channel_hits(channel, row));
            }
            areas.set(i, area);
            rows.set(i, row);
            i += 1;
        }
        self.areas.modal_rgb_areas = hits;
        MixerLayout { preview, rows, row_areas: areas, hex_row: inner.y + inner.height.saturating_sub(3) }
    }
}

} // verus!
