//! Menu state and the log panel.
use vstd::prelude::*;

pub mod menu;

use crate::draw::{Color, DrawOp, DrawOpView, ops_view};
use crate::logs::log_v;
use crate::player::ControlMode;
use crate::world::World;

verus! {

/// Which side-menu view is shown.
#[derive(PartialEq, Eq, Structural, Copy, Clone, Debug)]
pub enum MenuMode {
    Default,
    Interact,
    Inventory,
    Craft,
}

/// All user-interface state: panel visibility, the active menu view, the
/// active control mode and the highlighted craft option.
#[derive(Copy, Clone, PartialEq, Eq, Structural, Debug)]
pub struct UserInterfaceState {
    pub log: bool,
    pub menu: bool,
    pub menu_mode: MenuMode,
    pub control_mode: ControlMode,
    pub selected_option: usize,
}


/// One line of the log panel: the `i`-th newest entry.
pub open spec fn log_line(log: Seq<Seq<char>>, i: int) -> DrawOpView {
    DrawOpView::Text { x: 2, y: (44 + i) as i32, text: log[log.len() - 1 - i] }
}

/// The log panel: a box along the bottom and the newest entries, newest
/// first, as many as fit. Hidden panels draw nothing.
pub open spec fn log_panel_ops(log: Seq<Seq<char>>, show: bool) -> Seq<DrawOpView> {
    if !show {
        Seq::empty()
    } else {
        seq![
            DrawOpView::Panel {
                x: 0,
                y: 43,
                w: 79,
                h: 6,
                fg: Color { r: 255, g: 255, b: 255 },
                bg: Color { r: 0, g: 0, b: 0 },
            },
        ] + Seq::new(if log.len() < 5 { log.len() } else { 5nat }, |i: int| log_line(log, i))
    }
}

/// Draw the log panel.
pub fn draw_log(world: &World, frame: &mut Vec<DrawOp>)
    ensures
        ops_view(final(frame)@) == ops_view(old(frame)@) + log_panel_ops(
            log_v(world.log.entries@),
            world.ui.log,
        ),
{
    let ghost glog = log_v(world.log.entries@);
    if !world.ui.log {
        proof {
            assert(ops_view(frame@) =~= ops_view(old(frame)@) + log_panel_ops(glog, false));
        }
        return ;
    }

    let width = (crate::map::WIDTH - 1) as i32;
    frame.push(DrawOp::Panel { x: 0, y: 43, w: width, h: 6, fg: Color::white(), bg: Color::black() });
    let n = world.log.entries.len();
    let limit: usize = if n < 5 {
        n
    } else {
        5
    };
    let ghost header = ops_view(frame@);
    proof {
        assert(header =~= ops_view(old(frame)@) + log_panel_ops(glog, true).take(1));
    }
    let mut i: usize = 0;
    while i < limit
        invariant
            0 <= i <= limit,
            limit == (if glog.len() < 5 {
                glog.len() as int
            } else {
                5int
            }),
            n == glog.len(),
            glog == log_v(world.log.entries@),
            header == ops_view(old(frame)@) + log_panel_ops(glog, true).take(1),
            ops_view(frame@) == header + Seq::new(i as nat, |k: int| log_line(glog, k)),
        decreases limit - i,
    {
        let entry = world.log.entries[n - 1 - i].clone();
        proof {
            assert(entry@ == glog[glog.len() - 1 - i]);
        }
        let ghost pre_ops = ops_view(frame@);
        let ghost gentry = entry@;
        let y = 44 + (i as i32);
        frame.push(DrawOp::Text { x: 2, y, text: entry });
        proof {
            assert(ops_view(frame@) =~= pre_ops.push(DrawOpView::Text { x: 2, y, text: gentry }));
            assert(Seq::new((i + 1) as nat, |k: int| log_line(glog, k)) =~= Seq::new(
                i as nat,
                |k: int| log_line(glog, k),
            ).push(log_line(glog, i as int)));
            assert(ops_view(frame@) =~= header + Seq::new(
                (i + 1) as nat,
                |k: int| log_line(glog, k),
            ));
        }
        i = i + 1;
    }
    proof {
        assert(log_panel_ops(glog, true) =~= log_panel_ops(glog, true).take(1) + Seq::new(
            (if glog.len() < 5 {
                glog.len()
            } else {
                5nat
            }),
            |k: int| log_line(glog, k),
        ));
        assert(ops_view(frame@) =~= ops_view(old(frame)@) + log_panel_ops(glog, true));
    }
}

} // verus!
