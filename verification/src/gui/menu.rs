//! Menu layout and the craft command.
use vstd::prelude::*;

use vstd::string::StrSliceExecFns;

use crate::components::items::{CraftQueue, InBackpack};
use crate::draw::{Color, DrawOp, DrawOpView, ops_view};
use crate::gui::MenuMode;
use crate::map::{HEIGHT, TileType, WIDTH};
use crate::state::State;
use crate::systems::craft::{RECIPE_COUNT, count_matching, recipes, spec_recipes};
use crate::world::{
    Entity, World, crafts_v, lemma_tinsert, lemma_tinsert_bounded, names_v, thas, tinsert, tval,
};

verus! {

/// What confirming a craft selection does to the craft-intent table: the
/// selected recipe's result name is written onto every item entity.
pub open spec fn fill_craft_intents(
    cq: Seq<(Entity, Seq<char>)>,
    items: Seq<(Entity, crate::components::items::Item)>,
    name: Seq<char>,
) -> Seq<(Entity, Seq<char>)>
    decreases items.len(),
{
    if items.len() == 0 {
        cq
    } else {
        fill_craft_intents(tinsert(cq, items[0].0, name), items.drop_first(), name)
    }
}

/// Confirm the highlighted craft option: place a craft intent bearing the
/// selected recipe's result name on every item entity.
pub fn craft(state: &mut State)
    requires
        old(state).world.wf(),
    ensures
        final(state).world.wf(),
        crafts_v(final(state).world.craft_queue@) == fill_craft_intents(
            crafts_v(old(state).world.craft_queue@),
            old(state).world.items@,
            spec_recipes()[old(state).world.ui.selected_option as int].result,
        ),
        final(state).world.positions == old(state).world.positions,
        final(state).world.renderables == old(state).world.renderables,
        final(state).world.players == old(state).world.players,
        final(state).world.names == old(state).world.names,
        final(state).world.items == old(state).world.items,
        final(state).world.flints == old(state).world.flints,
        final(state).world.bushes == old(state).world.bushes,
        final(state).world.wooden_sticks == old(state).world.wooden_sticks,
        final(state).world.roses == old(state).world.roses,
        final(state).world.axes == old(state).world.axes,
        final(state).world.fire_pits == old(state).world.fire_pits,
        final(state).world.pickup_queue == old(state).world.pickup_queue,
        final(state).world.backpacks == old(state).world.backpacks,
        final(state).world.tiers == old(state).world.tiers,
        final(state).world.blockers == old(state).world.blockers,
        final(state).world.map == old(state).world.map,
        final(state).world.log == old(state).world.log,
        final(state).world.ui == old(state).world.ui,
        final(state).world.player == old(state).world.player,
        final(state).world.next_id == old(state).world.next_id,
        final(state).world.pending_deletes == old(state).world.pending_deletes,
        final(state).world.pending_spawns == old(state).world.pending_spawns,
{
    let selected_option = state.world.ui.selected_option;
    let rs = recipes();
    let ghost gname = spec_recipes()[selected_option as int].result;
    proof {
        assert(crate::systems::craft::recipes_v(rs@)[selected_option as int] == rs@[selected_option as int]@);
    }
    let result_name: &String = &rs[selected_option].result_item_name;

    let ghost gitems = state.world.items@;
    let ghost gcq0 = crafts_v(state.world.craft_queue@);
    proof {
        assert(gitems.skip(0) =~= gitems);
    }
    let mut i: usize = 0;
    while i < state.world.items.len()
        invariant
            state.world.wf(),
            0 <= i <= gitems.len(),
            gitems == state.world.items@,
            result_name@ == gname,
            fill_craft_intents(crafts_v(state.world.craft_queue@), gitems.skip(i as int), gname)
                == fill_craft_intents(gcq0, gitems, gname),
            state.world.positions == old(state).world.positions,
            state.world.renderables == old(state).world.renderables,
            state.world.players == old(state).world.players,
            state.world.names == old(state).world.names,
            state.world.items == old(state).world.items,
            state.world.flints == old(state).world.flints,
            state.world.bushes == old(state).world.bushes,
            state.world.wooden_sticks == old(state).world.wooden_sticks,
            state.world.roses == old(state).world.roses,
            state.world.axes == old(state).world.axes,
            state.world.fire_pits == old(state).world.fire_pits,
            state.world.pickup_queue == old(state).world.pickup_queue,
            state.world.backpacks == old(state).world.backpacks,
            state.world.tiers == old(state).world.tiers,
            state.world.blockers == old(state).world.blockers,
            state.world.map == old(state).world.map,
            state.world.log == old(state).world.log,
            state.world.ui == old(state).world.ui,
            state.world.player == old(state).world.player,
            state.world.next_id == old(state).world.next_id,
            state.world.pending_deletes == old(state).world.pending_deletes,
            state.world.pending_spawns == old(state).world.pending_spawns,
        decreases gitems.len() - i,
    {
        proof {
            assert(gitems.skip(i as int)[0] == gitems[i as int]);
            assert(gitems.skip(i as int).drop_first() =~= gitems.skip(i as int + 1));
        }
        let e = state.world.items.key_at(i);
        let ghost pre = state.world;
        let cq_val = CraftQueue { item_name: result_name.clone() };
        let ghost gval = cq_val;
        state.world.craft_queue.insert(e, cq_val);
        proof {
            assert(gval.item_name@ == gname);
            crate::world::lemma_vmap_tinsert(
                pre.craft_queue@,
                |c: CraftQueue| c.item_name@,
                e,
                gval,
            );
            lemma_tinsert(pre.craft_queue@, e, gval);
            lemma_tinsert_bounded(pre.craft_queue@, e, gval, pre.next_id);
        }
        i = i + 1;
    }
    proof {
        assert(gitems.skip(gitems.len() as int) =~= Seq::<
            (Entity, crate::components::items::Item),
        >::empty());
    }
}


/// The character of one decimal digit.
pub open spec fn digit_char(d: int) -> char {
    if d == 0 {
        '0'
    } else if d == 1 {
        '1'
    } else if d == 2 {
        '2'
    } else if d == 3 {
        '3'
    } else if d == 4 {
        '4'
    } else if d == 5 {
        '5'
    } else if d == 6 {
        '6'
    } else if d == 7 {
        '7'
    } else if d == 8 {
        '8'
    } else {
        '9'
    }
}

/// The decimal digits of a number, most significant first.
pub open spec fn dec_digits(n: int) -> Seq<char>
    decreases n,
{
    if n < 10 {
        seq![digit_char(n)]
    } else {
        dec_digits(n / 10).push(digit_char(n % 10))
    }
}

/// One decimal digit as text.
fn digit_str(d: u64) -> (r: &'static str)
    requires
        d < 10,
    ensures
        r@ == seq![digit_char(d as int)],
{
    let r = match d {
        0u64 => "0",
        1u64 => "1",
        2u64 => "2",
        3u64 => "3",
        4u64 => "4",
        5u64 => "5",
        6u64 => "6",
        7u64 => "7",
        8u64 => "8",
        _ => "9",
    };
    proof {
        reveal_strlit("0");
        reveal_strlit("1");
        reveal_strlit("2");
        reveal_strlit("3");
        reveal_strlit("4");
        reveal_strlit("5");
        reveal_strlit("6");
        reveal_strlit("7");
        reveal_strlit("8");
        reveal_strlit("9");
        assert(r@ =~= seq![digit_char(d as int)]);
    }
    r
}

/// A number rendered in decimal.
pub fn dec_string(n: u64) -> (s: String)
    ensures
        s@ == dec_digits(n as int),
    decreases n,
{
    if n < 10 {
        digit_str(n).to_owned()
    } else {
        let mut s = dec_string(n / 10);
        s.append(digit_str(n % 10));
        proof {
            assert(s@ =~= dec_digits((n / 10) as int).push(digit_char((n % 10) as int)));
        }
        s
    }
}

/// One labelled menu entry: a key and what it does.
#[derive(Clone)]
pub struct MenuOption {
    pub key: String,
    pub name: String,
}

struct Menu {
    options: Vec<MenuOption>,
}

/// The two draw operations of one menu entry: the key in green, then a
/// colon and the entry's name.
pub open spec fn menu_option_ops(key: Seq<char>, name: Seq<char>, x: i32, y: i32) -> Seq<
    DrawOpView,
> {
    seq![
        DrawOpView::ColorText {
            x,
            y,
            fg: Color { r: 0, g: 255, b: 0 },
            bg: Color { r: 0, g: 0, b: 0 },
            text: key,
        },
        DrawOpView::Text { x: (x + key.len()) as i32, y, text: ": "@ + name },
    ]
}

impl MenuOption {
    fn print(self, frame: &mut Vec<DrawOp>, x: i32, y: i32)
        requires
            0 <= x,
            x + self.key@.len() <= i32::MAX,
        ensures
            ops_view(final(frame)@) == ops_view(old(frame)@) + menu_option_ops(
                self.key@,
                self.name@,
                x,
                y,
            ),
    {
        let ghost gkey = self.key@;
        let ghost gname = self.name@;
        let key_len = self.key.as_str().unicode_len();
        frame.push(
            DrawOp::ColorText { x, y, fg: Color::green(), bg: Color::black(), text: self.key },
        );
        let mut text = ": ".to_owned();
        text.append(self.name.as_str());
        let new_x = x + key_len as i32;
        frame.push(DrawOp::Text { x: new_x, y, text });
        proof {
            assert(ops_view(frame@) =~= ops_view(old(frame)@) + menu_option_ops(gkey, gname, x, y));
        }
    }
}

pub fn option(key: &str, name: &str) -> (r: MenuOption)
    ensures
        r.key@ == key@,
        r.name@ == name@,
{
    MenuOption { key: key.to_owned(), name: name.to_owned() }
}

/// The fixed option list of the side menu.
pub open spec fn options_ops(x: i32, y: i32) -> Seq<DrawOpView> {
    menu_option_ops("d"@, "build"@, x, (y + 1) as i32) + menu_option_ops(
        "i"@,
        "interact"@,
        x,
        (y + 3) as i32,
    ) + menu_option_ops("e"@, "backpack"@, x, (y + 5) as i32) + menu_option_ops(
        "c"@,
        "craft"@,
        x,
        (y + 7) as i32,
    ) + menu_option_ops("o"@, "options"@, x, (y + 9) as i32)
}

/// Draw the side menu's option list.
pub fn show_options(frame: &mut Vec<DrawOp>, x: i32, y: i32)
    requires
        0 <= x < i32::MAX,
        y + 9 <= i32::MAX,
    ensures
        ops_view(final(frame)@) == ops_view(old(frame)@) + options_ops(x, y),
{
    proof {
        reveal_strlit("d");
        reveal_strlit("i");
        reveal_strlit("e");
        reveal_strlit("c");
        reveal_strlit("o");
    }
    let mut menu = Menu {
        options: vec![
            option("d", "build"),
            option("i", "interact"),
            option("e", "backpack"),
            option("c", "craft"),
            option("o", "options"),
        ],
    };
    let o4 = menu.options.pop().unwrap();
    let o3 = menu.options.pop().unwrap();
    let o2 = menu.options.pop().unwrap();
    let o1 = menu.options.pop().unwrap();
    let o0 = menu.options.pop().unwrap();
    o0.print(frame, x, y + 1);
    o1.print(frame, x, y + 3);
    o2.print(frame, x, y + 5);
    o3.print(frame, x, y + 7);
    o4.print(frame, x, y + 9);
    proof {
        assert(ops_view(frame@) =~= ops_view(old(frame)@) + options_ops(x, y));
    }
}

/// The color of a craftability flag: green when craftable, red when not.
pub fn can_craft(check: bool) -> (c: Color)
    ensures
        c == if check {
            Color { r: 0, g: 255, b: 0 }
        } else {
            Color { r: 255, g: 0, b: 0 }
        },
{
    if check {
        Color::green()
    } else {
        Color::red()
    }
}


/// The views of a list of strings.
pub open spec fn names_seq(v: Seq<String>) -> Seq<Seq<char>> {
    v.map_values(|s: String| s@)
}

/// Whether a list of strings holds one with the given view.
fn contains_name(v: &Vec<String>, s: &String) -> (r: bool)
    ensures
        r == names_seq(v@).contains(s@),
{
    let mut i: usize = 0;
    while i < v.len()
        invariant
            0 <= i <= v@.len(),
            forall|k: int| 0 <= k < i ==> (#[trigger] v@[k])@ != s@,
        decreases v@.len() - i,
    {
        if v[i].eq(s) {
            proof {
                assert(names_seq(v@)[i as int] == s@);
            }
            return true;
        }
        i = i + 1;
    }
    proof {
        if names_seq(v@).contains(s@) {
            let k = choose|k: int| 0 <= k < names_seq(v@).len() && names_seq(v@)[k] == s@;
            assert(v@[k]@ == s@);
        }
    }
    false
}


/// Lexicographic order on character sequences by code point; on UTF-8
/// strings this coincides with the byte-wise string order, so an
/// aggregation keyed this way lists names as an ordered map would.
pub open spec fn lex_le(a: Seq<char>, b: Seq<char>) -> bool
    decreases a.len(),
{
    if a.len() == 0 {
        true
    } else if b.len() == 0 {
        false
    } else if a[0] == b[0] {
        lex_le(a.drop_first(), b.drop_first())
    } else {
        (a[0] as int) < (b[0] as int)
    }
}

/// Whether `a` comes before `b` (or equals it) in name order.
fn str_le(a: &str, b: &str) -> (r: bool)
    ensures
        r == lex_le(a@, b@),
{
    let alen = a.unicode_len();
    let blen = b.unicode_len();
    proof {
        assert(a@.skip(0) =~= a@);
        assert(b@.skip(0) =~= b@);
    }
    let mut i: usize = 0;
    while i < alen && i < blen
        invariant
            alen == a@.len(),
            blen == b@.len(),
            0 <= i <= alen,
            0 <= i <= blen,
            lex_le(a@, b@) == lex_le(a@.skip(i as int), b@.skip(i as int)),
        decreases alen - i,
    {
        let ca = a.get_char(i);
        let cb = b.get_char(i);
        if ca != cb {
            proof {
                assert(a@.skip(i as int)[0] == a@[i as int]);
                assert(b@.skip(i as int)[0] == b@[i as int]);
            }
            return (ca as u32) < (cb as u32);
        }
        proof {
            assert(a@.skip(i as int)[0] == a@[i as int]);
            assert(b@.skip(i as int)[0] == b@[i as int]);
            assert(a@.skip(i as int).drop_first() =~= a@.skip(i as int + 1));
            assert(b@.skip(i as int).drop_first() =~= b@.skip(i as int + 1));
        }
        i = i + 1;
    }
    proof {
        if i == alen {
            assert(a@.skip(alen as int) =~= Seq::<char>::empty());
        } else {
            assert(b@.skip(blen as int) =~= Seq::<char>::empty());
            assert(a@.skip(i as int).len() > 0);
        }
    }
    i >= alen
}

/// Insertion into a name list, before the first entry it precedes.
pub open spec fn insert_sorted(s: Seq<Seq<char>>, x: Seq<char>) -> Seq<Seq<char>>
    decreases s.len(),
{
    if s.len() == 0 {
        seq![x]
    } else if lex_le(x, s[0]) {
        seq![x] + s
    } else {
        seq![s[0]] + insert_sorted(s.drop_first(), x)
    }
}

/// The names sorted into ascending order, one insertion at a time.
pub open spec fn sort_names_from(acc: Seq<Seq<char>>, s: Seq<Seq<char>>) -> Seq<Seq<char>>
    decreases s.len(),
{
    if s.len() == 0 {
        acc
    } else {
        sort_names_from(insert_sorted(acc, s[0]), s.drop_first())
    }
}

/// Inserting at the first position whose entry the new name precedes is
/// what `insert_sorted` does.
proof fn lemma_insert_sorted_at(s: Seq<Seq<char>>, x: Seq<char>, j: int)
    requires
        0 <= j <= s.len(),
        forall|k: int| 0 <= k < j ==> !lex_le(x, #[trigger] s[k]),
        j < s.len() ==> lex_le(x, s[j]),
    ensures
        insert_sorted(s, x) == s.take(j) + seq![x] + s.skip(j),
    decreases s.len(),
{
    if s.len() == 0 {
        assert(insert_sorted(s, x) =~= s.take(j) + seq![x] + s.skip(j));
    } else if j == 0 {
        assert(insert_sorted(s, x) == seq![x] + s);
        assert(s.take(0) + seq![x] + s.skip(0) =~= seq![x] + s);
    } else {
        assert(!lex_le(x, s[0]));
        assert(forall|k: int| 0 <= k < j - 1 ==> s.drop_first()[k] == s[k + 1]);
        lemma_insert_sorted_at(s.drop_first(), x, j - 1);
        assert(seq![s[0]] + (s.drop_first().take(j - 1) + seq![x] + s.drop_first().skip(j - 1))
            =~= s.take(j) + seq![x] + s.skip(j));
        assert(insert_sorted(s, x) =~= s.take(j) + seq![x] + s.skip(j));
    }
}

/// Insert one name into an already-aggregated name list, keeping it in
/// ascending order.
fn insert_name_sorted(v: &mut Vec<String>, x: String)
    ensures
        names_seq(final(v)@) == insert_sorted(names_seq(old(v)@), x@),
{
    let ghost gx = x@;
    let mut j: usize = 0;
    while j < v.len() && !str_le(x.as_str(), v[j].as_str())
        invariant
            0 <= j <= v@.len(),
            v == old(v),
            gx == x@,
            forall|k: int| 0 <= k < j ==> !lex_le(gx, names_seq(v@)[k]),
        decreases v@.len() - j,
    {
        proof {
            assert(names_seq(v@)[j as int] == v@[j as int]@);
        }
        j = j + 1;
    }
    proof {
        if j < v@.len() {
            assert(names_seq(v@)[j as int] == v@[j as int]@);
        }
        lemma_insert_sorted_at(names_seq(v@), gx, j as int);
    }
    let ghost pre = v@;
    v.insert(j, x);
    proof {
        assert(forall|k: int| 0 <= k < j ==> v@[k] == pre[k]);
        assert(v@[j as int] == x);
        assert(forall|k: int| j < k < v@.len() ==> v@[k] == pre[k - 1]);
        assert(names_seq(v@) =~= names_seq(pre).take(j as int) + seq![gx] + names_seq(pre).skip(
            j as int,
        ));
    }
}

/// The distinct names held by `player`, in first-occurrence order over the
/// backpack table, appended to `acc`.
pub open spec fn distinct_held_names(
    bp: Seq<(Entity, InBackpack)>,
    names: Seq<(Entity, Seq<char>)>,
    player: Entity,
    acc: Seq<Seq<char>>,
) -> Seq<Seq<char>>
    decreases bp.len(),
{
    if bp.len() == 0 {
        acc
    } else {
        let e = bp[0];
        if e.1.owner == player && thas(names, e.0) && !acc.contains(tval(names, e.0)) {
            distinct_held_names(bp.drop_first(), names, player, acc.push(tval(names, e.0)))
        } else {
            distinct_held_names(bp.drop_first(), names, player, acc)
        }
    }
}

/// How many entities named `name` the player holds.
pub fn count_held(world: &World, name: &String) -> (n: usize)
    requires
        world.wf(),
    ensures
        n == count_matching(world.backpacks@, names_v(world.names@), world.player, name@),
        n <= world.backpacks@.len(),
    {
    let ghost gbp = world.backpacks@;
    let ghost gnames = names_v(world.names@);
    proof {
        assert(gbp.skip(0) =~= gbp);
    }
    let mut n: usize = 0;
    let mut i: usize = 0;
    while i < world.backpacks.len()
        invariant
            world.wf(),
            0 <= i <= gbp.len(),
            gbp == world.backpacks@,
            gnames == names_v(world.names@),
            n <= i,
            n + count_matching(gbp.skip(i as int), gnames, world.player, name@) == count_matching(
                gbp,
                gnames,
                world.player,
                name@,
            ),
        decreases gbp.len() - i,
    {
        proof {
            assert(gbp.skip(i as int)[0] == gbp[i as int]);
            assert(gbp.skip(i as int).drop_first() =~= gbp.skip(i as int + 1));
        }
        let e = world.backpacks.key_at(i);
        let owner = world.backpacks.val_at(i).owner;
        if owner.id == world.player.id {
            match world.names.get(e) {
                Some(nm) => {
                    proof {
                        crate::world::lemma_vmap_tlookup(world.names@, |na: crate::Name| na.name@, e);
                    }
                    if nm.name.eq(name) {
                        n = n + 1;
                    }
                },
                None => {
                    proof {
                        crate::world::lemma_vmap_tlookup(world.names@, |na: crate::Name| na.name@, e);
                    }
                },
            }
        }
        i = i + 1;
    }
    proof {
        assert(gbp.skip(gbp.len() as int) =~= Seq::<(Entity, InBackpack)>::empty());
    }
    n
}

/// The inventory panel: a box, the "backpack" title, and one line
/// "<name> x<count>" per distinct held name.
pub open spec fn inventory_ops(
    bp: Seq<(Entity, InBackpack)>,
    names: Seq<(Entity, Seq<char>)>,
    player: Entity,
) -> Seq<DrawOpView> {
    let listing = sort_names_from(
        Seq::empty(),
        distinct_held_names(bp, names, player, Seq::empty()),
    );
    seq![
        DrawOpView::Panel {
            x: 2,
            y: 2,
            w: 30,
            h: 30,
            fg: Color { r: 255, g: 255, b: 255 },
            bg: Color { r: 0, g: 0, b: 0 },
        },
        DrawOpView::CenteredText { x: 17, y: 2, text: "backpack"@ },
    ] + Seq::new(
        listing.len(),
        |i: int|
            DrawOpView::Text {
                x: 4,
                y: (4 + i) as i32,
                text: listing[i] + " x"@ + dec_digits(
                    count_matching(bp, names, player, listing[i]),
                ),
            },
    )
}

/// Inserting one name grows the listing by one.
proof fn lemma_insert_sorted_len(s: Seq<Seq<char>>, x: Seq<char>)
    ensures
        insert_sorted(s, x).len() == s.len() + 1,
    decreases s.len(),
{
    if s.len() > 0 && !lex_le(x, s[0]) {
        lemma_insert_sorted_len(s.drop_first(), x);
    }
}

/// Sorting keeps every name.
proof fn lemma_sort_names_len(acc: Seq<Seq<char>>, s: Seq<Seq<char>>)
    ensures
        sort_names_from(acc, s).len() == acc.len() + s.len(),
    decreases s.len(),
{
    if s.len() > 0 {
        lemma_insert_sorted_len(acc, s[0]);
        lemma_sort_names_len(insert_sorted(acc, s[0]), s.drop_first());
    }
}

/// Draw the inventory panel: the player's held items, aggregated by name
/// and listed in ascending name order.
pub fn show_inventory(state: &mut State, frame: &mut Vec<DrawOp>)
    requires
        old(state).world.wf(),
        old(state).world.backpacks@.len() + 4 <= i32::MAX,
    ensures
        *final(state) == *old(state),
        ops_view(final(frame)@) == ops_view(old(frame)@) + inventory_ops(
            old(state).world.backpacks@,
            names_v(old(state).world.names@),
            old(state).world.player,
        ),
{
    let ghost gbp = state.world.backpacks@;
    let ghost gnames = names_v(state.world.names@);
    let ghost gplayer = state.world.player;
    frame.push(
        DrawOp::Panel { x: 2, y: 2, w: 30, h: 30, fg: Color::white(), bg: Color::black() },
    );
    frame.push(DrawOp::CenteredText { x: 17, y: 2, text: "backpack".to_owned() });

    // aggregate the distinct names in first-occurrence order
    let mut uniq: Vec<String> = Vec::new();
    proof {
        assert(gbp.skip(0) =~= gbp);
        assert(names_seq(uniq@) =~= Seq::<Seq<char>>::empty());
    }
    let mut i: usize = 0;
    while i < state.world.backpacks.len()
        invariant
            state.world.wf(),
            *state == *old(state),
            0 <= i <= gbp.len(),
            gbp == state.world.backpacks@,
            gnames == names_v(state.world.names@),
            gplayer == state.world.player,
            uniq@.len() <= i,
            distinct_held_names(gbp.skip(i as int), gnames, gplayer, names_seq(uniq@))
                == distinct_held_names(gbp, gnames, gplayer, Seq::empty()),
        decreases gbp.len() - i,
    {
        proof {
            assert(gbp.skip(i as int)[0] == gbp[i as int]);
            assert(gbp.skip(i as int).drop_first() =~= gbp.skip(i as int + 1));
        }
        let e = state.world.backpacks.key_at(i);
        let owner = state.world.backpacks.val_at(i).owner;
        if owner.id == state.world.player.id {
            match state.world.names.get(e) {
                Some(nm) => {
                    proof {
                        crate::world::lemma_vmap_tlookup(
                            state.world.names@,
                            |na: crate::Name| na.name@,
                            e,
                        );
                    }
                    if !contains_name(&uniq, &nm.name) {
                        let ghost pre_uniq = names_seq(uniq@);
                        uniq.push(nm.name.clone());
                        proof {
                            assert(names_seq(uniq@) =~= pre_uniq.push(nm.name@));
                        }
                    }
                },
                None => {
                    proof {
                        crate::world::lemma_vmap_tlookup(
                            state.world.names@,
                            |na: crate::Name| na.name@,
                            e,
                        );
                    }
                },
            }
        }
        i = i + 1;
    }
    proof {
        assert(gbp.skip(gbp.len() as int) =~= Seq::<(Entity, InBackpack)>::empty());
    }
    let ghost dn = distinct_held_names(gbp, gnames, gplayer, Seq::empty());
    proof {
        assert(names_seq(uniq@) == dn);
    }

    // list the aggregated names in ascending name order
    let ghost listing = sort_names_from(Seq::empty(), dn);
    let mut sorted_names: Vec<String> = Vec::new();
    proof {
        assert(names_seq(sorted_names@) =~= Seq::<Seq<char>>::empty());
        assert(dn.skip(0) =~= dn);
    }
    let mut u: usize = 0;
    while u < uniq.len()
        invariant
            state.world.wf(),
            *state == *old(state),
            0 <= u <= uniq@.len(),
            gbp == state.world.backpacks@,
            gnames == names_v(state.world.names@),
            gplayer == state.world.player,
            uniq@.len() <= gbp.len(),
            gbp.len() + 4 <= i32::MAX,
            names_seq(uniq@) == dn,
            dn == distinct_held_names(gbp, gnames, gplayer, Seq::empty()),
            listing == sort_names_from(Seq::empty(), dn),
            sort_names_from(names_seq(sorted_names@), dn.skip(u as int)) == listing,
        decreases uniq@.len() - u,
    {
        proof {
            assert(dn.skip(u as int)[0] == dn[u as int]);
            assert(dn.skip(u as int).drop_first() =~= dn.skip(u as int + 1));
            assert(names_seq(uniq@)[u as int] == uniq@[u as int]@);
        }
        insert_name_sorted(&mut sorted_names, uniq[u].clone());
        u = u + 1;
    }
    proof {
        assert(dn.skip(dn.len() as int) =~= Seq::<Seq<char>>::empty());
        assert(names_seq(sorted_names@) == listing);
        lemma_sort_names_len(Seq::empty(), dn);
    }

    // one line per name
    let ghost header = ops_view(frame@);
    let mut j: usize = 0;
    while j < sorted_names.len()
        invariant
            state.world.wf(),
            *state == *old(state),
            0 <= j <= sorted_names@.len(),
            gbp == state.world.backpacks@,
            gnames == names_v(state.world.names@),
            gplayer == state.world.player,
            sorted_names@.len() <= gbp.len(),
            gbp.len() + 4 <= i32::MAX,
            names_seq(sorted_names@) == listing,
            dn == distinct_held_names(gbp, gnames, gplayer, Seq::empty()),
            listing == sort_names_from(Seq::empty(), dn),
            header == ops_view(old(frame)@) + inventory_ops(gbp, gnames, gplayer).take(2),
            ops_view(frame@) == header + Seq::new(
                j as nat,
                |i: int|
                    DrawOpView::Text {
                        x: 4,
                        y: (4 + i) as i32,
                        text: listing[i] + " x"@ + dec_digits(
                            count_matching(gbp, gnames, gplayer, listing[i]),
                        ),
                    },
            ),
        decreases sorted_names@.len() - j,
    {
        let cnt = count_held(&state.world, &sorted_names[j]);
        let mut line = sorted_names[j].clone();
        line.append(" x");
        let cnt_text = dec_string(cnt as u64);
        line.append(cnt_text.as_str());
        let y = 4 + (j as i32);
        proof {
            assert(names_seq(sorted_names@)[j as int] == sorted_names@[j as int]@);
            assert(listing[j as int] == sorted_names@[j as int]@);
            assert(line@ == listing[j as int] + " x"@ + dec_digits(
                count_matching(gbp, gnames, gplayer, listing[j as int]),
            ));
        }
        let ghost pre_ops = ops_view(frame@);
        let ghost gline = line@;
        frame.push(DrawOp::Text { x: 4, y, text: line });
        proof {
            assert(ops_view(frame@) =~= pre_ops.push(DrawOpView::Text { x: 4, y, text: gline }));
            assert(Seq::new(
                (j + 1) as nat,
                |i: int|
                    DrawOpView::Text {
                        x: 4,
                        y: (4 + i) as i32,
                        text: listing[i] + " x"@ + dec_digits(
                            count_matching(gbp, gnames, gplayer, listing[i]),
                        ),
                    },
            ) =~= Seq::new(
                j as nat,
                |i: int|
                    DrawOpView::Text {
                        x: 4,
                        y: (4 + i) as i32,
                        text: listing[i] + " x"@ + dec_digits(
                            count_matching(gbp, gnames, gplayer, listing[i]),
                        ),
                    },
            ).push(
                DrawOpView::Text {
                    x: 4,
                    y: (4 + j as int) as i32,
                    text: listing[j as int] + " x"@ + dec_digits(
                        count_matching(gbp, gnames, gplayer, listing[j as int]),
                    ),
                },
            ));
            assert(ops_view(frame@) =~= header + Seq::new(
                (j + 1) as nat,
                |i: int|
                    DrawOpView::Text {
                        x: 4,
                        y: (4 + i) as i32,
                        text: listing[i] + " x"@ + dec_digits(
                            count_matching(gbp, gnames, gplayer, listing[i]),
                        ),
                    },
            ));
        }
        j = j + 1;
    }
    proof {
        assert(inventory_ops(gbp, gnames, gplayer).take(2) =~= seq![
            DrawOpView::Panel {
                x: 2,
                y: 2,
                w: 30,
                h: 30,
                fg: Color { r: 255, g: 255, b: 255 },
                bg: Color { r: 0, g: 0, b: 0 },
            },
            DrawOpView::CenteredText { x: 17, y: 2, text: "backpack"@ },
        ]);
        assert(ops_view(frame@) =~= ops_view(old(frame)@) + inventory_ops(gbp, gnames, gplayer));
    }
}

/// Whether the player holds enough of every ingredient of a recipe.
pub open spec fn can_craft_recipe(
    bp: Seq<(Entity, InBackpack)>,
    names: Seq<(Entity, Seq<char>)>,
    player: Entity,
    rv: crate::systems::craft::RecipeView,
) -> bool {
    forall|j: int|
        0 <= j < rv.requirements.len() ==> (#[trigger] rv.requirements[j]).1 <= count_matching(
            bp,
            names,
            player,
            rv.requirements[j].0,
        )
}

/// One recipe line of the craft panel.
pub open spec fn craft_line(
    bp: Seq<(Entity, InBackpack)>,
    names: Seq<(Entity, Seq<char>)>,
    player: Entity,
    r: int,
) -> DrawOpView {
    DrawOpView::ColorText {
        x: 6,
        y: (4 + r) as i32,
        fg: if can_craft_recipe(bp, names, player, spec_recipes()[r]) {
            Color { r: 0, g: 255, b: 0 }
        } else {
            Color { r: 255, g: 0, b: 0 }
        },
        bg: Color { r: 0, g: 0, b: 0 },
        text: spec_recipes()[r].result,
    }
}

/// The craft panel: a box, the "craft" title, the selection arrow, and
/// one line per recipe, green when craftable and red when not.
pub open spec fn craft_ops(
    bp: Seq<(Entity, InBackpack)>,
    names: Seq<(Entity, Seq<char>)>,
    player: Entity,
    selected: int,
) -> Seq<DrawOpView> {
    seq![
        DrawOpView::Panel {
            x: 2,
            y: 2,
            w: 30,
            h: 30,
            fg: Color { r: 255, g: 255, b: 255 },
            bg: Color { r: 0, g: 0, b: 0 },
        },
        DrawOpView::CenteredText { x: 17, y: 2, text: "craft"@ },
        DrawOpView::Cell {
            x: 4,
            y: (4 + selected) as i32,
            fg: Color { r: 255, g: 255, b: 255 },
            bg: Color { r: 0, g: 0, b: 0 },
            glyph: crate::outside::cp437_of('\u{2192}'),
        },
    ] + Seq::new(spec_recipes().len(), |r: int| craft_line(bp, names, player, r))
}

/// Draw the craft panel: every recipe with its craftability preview, and
/// the arrow on the highlighted option.
pub fn show_craft(state: &mut State, frame: &mut Vec<DrawOp>)
    requires
        old(state).world.wf(),
    ensures
        *final(state) == *old(state),
        ops_view(final(frame)@) == ops_view(old(frame)@) + craft_ops(
            old(state).world.backpacks@,
            names_v(old(state).world.names@),
            old(state).world.player,
            old(state).world.ui.selected_option as int,
        ),
{
    let ghost gbp = state.world.backpacks@;
    let ghost gnames = names_v(state.world.names@);
    let ghost gplayer = state.world.player;
    let ghost gsel = state.world.ui.selected_option as int;
    frame.push(
        DrawOp::Panel { x: 2, y: 2, w: 30, h: 30, fg: Color::white(), bg: Color::black() },
    );
    frame.push(DrawOp::CenteredText { x: 17, y: 2, text: "craft".to_owned() });
    let selected_y = 4 + (state.world.ui.selected_option as i32);
    let arrow = bracket_lib::prelude::to_cp437('\u{2192}');
    frame.push(
        DrawOp::Cell { x: 4, y: selected_y, fg: Color::white(), bg: Color::black(), glyph: arrow },
    );

    let rs = recipes();
    let ghost header = ops_view(frame@);
    let mut r: usize = 0;
    while r < rs.len()
        invariant
            state.world.wf(),
            *state == *old(state),
            0 <= r <= rs@.len(),
            rs@.len() == RECIPE_COUNT,
            crate::systems::craft::recipes_v(rs@) == spec_recipes(),
            gbp == state.world.backpacks@,
            gnames == names_v(state.world.names@),
            gplayer == state.world.player,
            ops_view(frame@) == header + Seq::new(r as nat, |rr: int| craft_line(gbp, gnames, gplayer, rr)),
        decreases rs@.len() - r,
    {
        proof {
            assert(crate::systems::craft::recipes_v(rs@)[r as int] == rs@[r as int]@);
        }
        let ghost rv = spec_recipes()[r as int];
        let reqs_len = rs[r].requirements.len();
        let mut ok = true;
        let mut qi: usize = 0;
        while qi < reqs_len
            invariant
                state.world.wf(),
                *state == *old(state),
                0 <= qi <= reqs_len,
                0 <= r < rs@.len(),
                crate::systems::craft::recipes_v(rs@) == spec_recipes(),
                rv == spec_recipes()[r as int],
                reqs_len == rv.requirements.len(),
                gbp == state.world.backpacks@,
                gnames == names_v(state.world.names@),
                gplayer == state.world.player,
                ok == (forall|j: int|
                    0 <= j < qi ==> (#[trigger] rv.requirements[j]).1 <= count_matching(
                        gbp,
                        gnames,
                        gplayer,
                        rv.requirements[j].0,
                    )),
            decreases reqs_len - qi,
        {
            proof {
                assert(crate::systems::craft::recipes_v(rs@)[r as int] == rs@[r as int]@);
                assert(rv.requirements[qi as int] == rs@[r as int].requirements@[qi as int]@);
            }
            let cnt = count_held(&state.world, &rs[r].requirements[qi].item_name);
            let amount = rs[r].requirements[qi].amount;
            let sufficient: bool = if amount <= 0 {
                proof {
                    crate::systems::craft::lemma_count_matching_bounds(
                        gbp,
                        gnames,
                        gplayer,
                        rv.requirements[qi as int].0,
                    );
                }
                true
            } else {
                cnt >= (amount as usize)
            };
            ok = ok && sufficient;
            qi = qi + 1;
        }
        let color = can_craft(ok);
        proof {
            assert(ok == can_craft_recipe(gbp, gnames, gplayer, rv));
        }
        let ghost pre_ops = ops_view(frame@);
        let line_text = rs[r].result_item_name.clone();
        let ghost gtext = line_text@;
        frame.push(
            DrawOp::ColorText {
                x: 6,
                y: 4 + (r as i32),
                fg: color,
                bg: Color::black(),
                text: line_text,
            },
        );
        proof {
            assert(ops_view(frame@) =~= pre_ops.push(
                DrawOpView::ColorText {
                    x: 6,
                    y: (4 + r as int) as i32,
                    fg: color,
                    bg: Color { r: 0, g: 0, b: 0 },
                    text: gtext,
                },
            ));
            assert(gtext == spec_recipes()[r as int].result);
            assert(Seq::new((r + 1) as nat, |rr: int| craft_line(gbp, gnames, gplayer, rr))
                =~= Seq::new(r as nat, |rr: int| craft_line(gbp, gnames, gplayer, rr)).push(
                craft_line(gbp, gnames, gplayer, r as int),
            ));
            assert(ops_view(frame@) =~= header + Seq::new(
                (r + 1) as nat,
                |rr: int| craft_line(gbp, gnames, gplayer, rr),
            ));
        }
        r = r + 1;
    }
    proof {
        assert(craft_ops(gbp, gnames, gplayer, gsel).take(3) =~= header.skip(
            ops_view(old(frame)@).len() as int,
        ));
        assert(ops_view(frame@) =~= ops_view(old(frame)@) + craft_ops(gbp, gnames, gplayer, gsel));
    }
}


/// The red highlight for one of the nine tiles around the player, indexed
/// `k` in 0..9 column-first; the player's own tile and tiles outside the
/// map draw nothing.
pub open spec fn interact_cell_ops(m: Seq<TileType>, px: int, py: int, k: int) -> Seq<DrawOpView> {
    let ox = px + k / 3 - 1;
    let oy = py + k % 3 - 1;
    if k == 4 || !(0 <= ox < WIDTH && 0 <= oy < HEIGHT) {
        Seq::empty()
    } else {
        seq![
            crate::map::tile_cell(
                m[oy * (WIDTH as int) + ox],
                ox as i32,
                oy as i32,
                Color { r: 255, g: 0, b: 0 },
                Color { r: 0, g: 0, b: 0 },
            ),
        ]
    }
}

/// The first `k` of the nine surrounding-tile highlights.
pub open spec fn interact_prefix_ops(m: Seq<TileType>, px: int, py: int, k: int) -> Seq<
    DrawOpView,
>
    decreases k,
{
    if k <= 0 {
        Seq::empty()
    } else {
        interact_prefix_ops(m, px, py, k - 1) + interact_cell_ops(m, px, py, k - 1)
    }
}

/// The interact view: the player's surroundings highlighted in red, and a
/// note that there is nothing to interact with.
pub open spec fn interact_ops(m: Seq<TileType>, px: int, py: int, x: i32, y: i32) -> Seq<
    DrawOpView,
> {
    interact_prefix_ops(m, px, py, 9) + seq![
        DrawOpView::Text { x, y, text: "no objects to"@ },
        DrawOpView::Text { x, y: (y + 1) as i32, text: "interact here"@ },
    ]
}

/// Draw the interact view around the player.
pub fn show_interact(world: &World, frame: &mut Vec<DrawOp>, x: i32, y: i32)
    requires
        world.wf(),
        0 <= y < i32::MAX,
    ensures
        ops_view(final(frame)@) == ops_view(old(frame)@) + interact_ops(
            world.map@,
            crate::components::items::last_player_pos(world.players@, world.positions@).x as int,
            crate::components::items::last_player_pos(world.players@, world.positions@).y as int,
            x,
            y,
        ),
{
    let ghost gplayers = world.players@;
    let ghost gpositions = world.positions@;
    let mut player_x: i32 = 0;
    let mut player_y: i32 = 0;
    proof {
        assert(gplayers.take(0) =~= Seq::<(Entity, crate::player::Player)>::empty());
    }
    let mut i: usize = 0;
    while i < world.players.len()
        invariant
            world.wf(),
            0 <= i <= gplayers.len(),
            gplayers == world.players@,
            gpositions == world.positions@,
            (crate::Position { x: player_x, y: player_y })
                == crate::components::items::last_player_pos(gplayers.take(i as int), gpositions),
        decreases gplayers.len() - i,
    {
        let e = world.players.key_at(i);
        match world.positions.get(e) {
            Some(p) => {
                player_x = p.x;
                player_y = p.y;
            },
            None => {},
        }
        proof {
            assert(gplayers.take(i as int + 1).drop_last() =~= gplayers.take(i as int));
            assert(gplayers.take(i as int + 1).last() == gplayers[i as int]);
        }
        i = i + 1;
    }
    proof {
        assert(gplayers.take(gplayers.len() as int) =~= gplayers);
    }

    let ghost gm = world.map@;
    let ghost gpx = player_x as int;
    let ghost gpy = player_y as int;
    let mut k: usize = 0;
    while k < 9
        invariant
            world.wf(),
            0 <= k <= 9,
            gm == world.map@,
            gpx == player_x as int,
            gpy == player_y as int,
            ops_view(frame@) == ops_view(old(frame)@) + interact_prefix_ops(
                gm,
                gpx,
                gpy,
                k as int,
            ),
        decreases 9 - k,
    {
        let dxi = (k / 3) as i32;
        let dyi = (k % 3) as i32;
        let ox64: i64 = player_x as i64 + dxi as i64 - 1;
        let oy64: i64 = player_y as i64 + dyi as i64 - 1;
        if k != 4 && 0 <= ox64 && ox64 < WIDTH as i64 && 0 <= oy64 && oy64 < HEIGHT as i64 {
            let ox = ox64 as i32;
            let oy = oy64 as i32;
            let idx = crate::map::xy_to_idx(ox, oy);
            let tile = world.map[idx];
            tile.render_custom(frame, ox, oy, Color::red(), Color::black());
            proof {
                assert(interact_cell_ops(gm, gpx, gpy, k as int) =~= seq![
                    crate::map::tile_cell(
                        gm[oy * (WIDTH as int) + ox],
                        ox,
                        oy,
                        Color { r: 255, g: 0, b: 0 },
                        Color { r: 0, g: 0, b: 0 },
                    ),
                ]);
                assert(ops_view(frame@) =~= ops_view(old(frame)@) + interact_prefix_ops(
                    gm,
                    gpx,
                    gpy,
                    k as int + 1,
                ));
            }
        } else {
            proof {
                assert(interact_cell_ops(gm, gpx, gpy, k as int) =~= Seq::<DrawOpView>::empty());
                assert(ops_view(frame@) =~= ops_view(old(frame)@) + interact_prefix_ops(
                    gm,
                    gpx,
                    gpy,
                    k as int + 1,
                ));
            }
        }
        k = k + 1;
    }

    let ghost pre_ops = ops_view(frame@);
    frame.push(DrawOp::Text { x, y, text: "no objects to".to_owned() });
    frame.push(DrawOp::Text { x, y: y + 1, text: "interact here".to_owned() });
    proof {
        assert(ops_view(frame@) =~= pre_ops.push(
            DrawOpView::Text { x, y, text: "no objects to"@ },
        ).push(DrawOpView::Text { x, y: (y + 1) as i32, text: "interact here"@ }));
        assert(ops_view(frame@) =~= ops_view(old(frame)@) + interact_ops(gm, gpx, gpy, x, y));
    }
}

/// The side menu: its frame and, inside, either the option list or the
/// interact view, sized to leave room for the log panel when it is shown.
pub open spec fn menu_panel_ops(w: &World) -> Seq<DrawOpView> {
    if !w.ui.menu {
        Seq::empty()
    } else {
        seq![
            DrawOpView::Panel {
                x: 60,
                y: 0,
                w: 19,
                h: if w.ui.log { 42 } else { 49 },
                fg: Color { r: 255, g: 255, b: 255 },
                bg: Color { r: 0, g: 0, b: 0 },
            },
        ] + (match w.ui.menu_mode {
            MenuMode::Interact => interact_ops(
                w.map@,
                crate::components::items::last_player_pos(w.players@, w.positions@).x as int,
                crate::components::items::last_player_pos(w.players@, w.positions@).y as int,
                62,
                2,
            ),
            _ => options_ops(62, 2),
        })
    }
}

/// Draw the side menu.
pub fn draw_menu(world: &World, frame: &mut Vec<DrawOp>)
    requires
        world.wf(),
    ensures
        ops_view(final(frame)@) == ops_view(old(frame)@) + menu_panel_ops(world),
{
    if !world.ui.menu {
        proof {
            assert(ops_view(frame@) =~= ops_view(old(frame)@) + menu_panel_ops(world));
        }
        return ;
    }

    let height: i32 = match world.ui.log {
        true => 42,
        false => 49,
    };
    frame.push(
        DrawOp::Panel { x: 60, y: 0, w: 19, h: height, fg: Color::white(), bg: Color::black() },
    );
    let ghost after_panel = ops_view(frame@);
    proof {
        assert(after_panel =~= ops_view(old(frame)@) + menu_panel_ops(world).take(1));
    }
    match world.ui.menu_mode {
        MenuMode::Default | MenuMode::Inventory | MenuMode::Craft => show_options(frame, 62, 2),
        MenuMode::Interact => show_interact(world, frame, 62, 2),
    }
    proof {
        assert(ops_view(frame@) =~= ops_view(old(frame)@) + menu_panel_ops(world));
    }
}

} // verus!
