//! What a scheme's stylesheet names: each asset of the scheme, and no other file.
use vstd::prelude::*;

use crate::theme_export::{
    asset_name, bar_rules, bevel_text, button_rule, button_rules, buttons, hex_text, rules_text,
    state_picture, the_rules_name_the_assets, Gtk, Palette, Rgb, BAR_COMMENT,
};

verus! {

/// The name of the asset at a place of the list: five buttons by four states.
pub open spec fn nth_name(i: int) -> Seq<char> {
    asset_name(buttons()[i / 4].0, i % 4 < 2, i % 2 == 1)
}

spec fn has_no_dash(text: Seq<char>) -> bool {
    forall|i: int| 0 <= i < text.len() ==> text[i] != '-'
}

proof fn names_are_told_apart_by_their_parts(b: Seq<char>, s: Seq<char>, c: Seq<char>, t: Seq<char>)
    requires
        has_no_dash(b),
        has_no_dash(c),
        b.push('-') + s == c.push('-') + t,
    ensures
        b == c,
        s == t,
{
    let name = b.push('-') + s;
    let same = c.push('-') + t;
    assert(name[b.len() as int] == '-');
    assert(same[c.len() as int] == '-');
    if b.len() < c.len() {
        assert(same[b.len() as int] == c[b.len() as int]);
    }
    if c.len() < b.len() {
        assert(name[c.len() as int] == b[c.len() as int]);
    }
    assert forall|i: int| 0 <= i < b.len() implies b[i] == c[i] by {
        assert(name[i] == same[i]);
    }
    assert(b =~= c);
    assert(name.len() == b.len() + 1 + s.len());
    assert(same.len() == c.len() + 1 + t.len());
    assert forall|i: int| 0 <= i < s.len() implies s[i] == t[i] by {
        assert(name[b.len() + 1 + i] == s[i]);
        assert(same[c.len() + 1 + i] == t[i]);
    }
    assert(s =~= t);
}

proof fn buttons_are_told_apart(i: int, j: int)
    requires
        0 <= i < 5,
        0 <= j < 5,
    ensures
        has_no_dash(buttons()[i].0),
        buttons()[i].0 == buttons()[j].0 ==> i == j,
{
    reveal_strlit("menu");
    reveal_strlit("minimize");
    reveal_strlit("maximize");
    reveal_strlit("maximized");
    reveal_strlit("close");
    assert("minimize"@[1] != "maximize"@[1]);
}

proof fn states_are_told_apart(i: int, j: int)
    requires
        0 <= i < 4,
        0 <= j < 4,
    ensures
        state_picture(i) == state_picture(j) ==> i == j,
{
    reveal_strlit("active");
    reveal_strlit("active-pressed");
    reveal_strlit("backdrop");
    reveal_strlit("backdrop-pressed");
    assert("active"@.len() == 6);
    assert("active-pressed"@.len() == 14);
    assert("backdrop"@.len() == 8);
    assert("backdrop-pressed"@.len() == 16);
}

proof fn a_name_is_its_parts(i: int)
    requires
        0 <= i < 20,
    ensures
        nth_name(i) == buttons()[i / 4].0.push('-') + state_picture(i % 4),
{
    the_rules_name_the_assets(Gtk::V3, Seq::empty(), Seq::empty(), Seq::empty(), i);
    reveal_strlit("-");
    assert("-"@ =~= seq!['-']);
    assert(buttons()[i / 4].0 + "-"@ + state_picture(i % 4) =~= buttons()[i / 4].0.push('-')
        + state_picture(i % 4));
}

/// No two assets of a scheme have the same name.
pub proof fn asset_names_are_distinct(i: int, j: int)
    requires
        0 <= i < 20,
        0 <= j < 20,
        i != j,
    ensures
        nth_name(i) != nth_name(j),
{
    a_name_is_its_parts(i);
    a_name_is_its_parts(j);
    buttons_are_told_apart(i / 4, j / 4);
    buttons_are_told_apart(j / 4, i / 4);
    states_are_told_apart(i % 4, j % 4);
    if nth_name(i) == nth_name(j) {
        names_are_told_apart_by_their_parts(
            buttons()[i / 4].0,
            state_picture(i % 4),
            buttons()[j / 4].0,
            state_picture(j % 4),
        );
    }
}

/// A stretch of a stylesheet: a text, or a picture of a scheme that is named there.
pub ghost enum Piece {
    Text(Seq<char>),
    Picture { scheme: Seq<char>, name: Seq<char> },
}

/// What stands in the stylesheet for a piece.
pub open spec fn written(piece: Piece) -> Seq<char> {
    match piece {
        Piece::Text(text) => text,
        Piece::Picture { scheme, name } => "url(\"../../assets/"@ + scheme + "/"@ + name
            + ".svg\")"@,
    }
}

/// The pieces, one after the other.
pub open spec fn all_written(pieces: Seq<Piece>) -> Seq<char>
    decreases pieces.len(),
{
    if pieces.len() == 0 {
        Seq::empty()
    } else {
        all_written(pieces.drop_last()) + written(pieces.last())
    }
}

/// The pictures that are named, in order, each with its scheme.
pub open spec fn pictures(pieces: Seq<Piece>) -> Seq<(Seq<char>, Seq<char>)>
    decreases pieces.len(),
{
    if pieces.len() == 0 {
        Seq::empty()
    } else {
        let before = pictures(pieces.drop_last());
        match pieces.last() {
            Piece::Text(_) => before,
            Piece::Picture { scheme, name } => before.push((scheme, name)),
        }
    }
}

/// Whether a piece is no text in which a file could be named: without a parenthesis there is no
/// `url(..)`.
pub open spec fn names_nothing(piece: Piece) -> bool {
    piece matches Piece::Text(text) ==> !text.contains('(')
}

/// The rule that gives a button in a state its picture.
pub open spec fn rule_pieces(
    gtk: Gtk,
    scheme: Seq<char>,
    class: Seq<char>,
    state: Seq<char>,
    prefix: Seq<char>,
    name: Seq<char>,
) -> Seq<Piece> {
    seq![Piece::Text(gtk.selector(class, state, prefix) + " {\n  background-image: "@)] + seq![
        Piece::Picture { scheme, name },
    ] + seq![Piece::Text(";\n}\n"@)]
}

/// The rules of a button, for the asset at a place of the list of buttons.
#[verifier::opaque]
pub open spec fn button_pieces(
    gtk: Gtk,
    scheme: Seq<char>,
    class: Seq<char>,
    prefix: Seq<char>,
    b: int,
) -> Seq<Piece> {
    rule_pieces(gtk, scheme, class, ""@, prefix, nth_name(4 * b)) + rule_pieces(
        gtk,
        scheme,
        class,
        ":active"@,
        prefix,
        nth_name(4 * b + 1),
    ) + rule_pieces(gtk, scheme, class, ":backdrop"@, prefix, nth_name(4 * b + 2)) + rule_pieces(
        gtk,
        scheme,
        class,
        ":backdrop:active"@,
        prefix,
        nth_name(4 * b + 3),
    )
}

/// The pieces of a scheme's asset rules.
pub open spec fn sheet_pieces(p: Palette, gtk: Gtk) -> Seq<Piece> {
    let id = p.id@;
    seq![Piece::Text(bar_rules(p))] + button_pieces(gtk, id, "menu"@, ""@, 0) + seq![
        Piece::Text("\n"@),
    ] + button_pieces(gtk, id, "minimize"@, ""@, 1) + seq![Piece::Text("\n"@)] + button_pieces(
        gtk,
        id,
        "maximize"@,
        ""@,
        2,
    ) + seq![Piece::Text("\n"@)] + button_pieces(gtk, id, "close"@, ""@, 4) + seq![
        Piece::Text("\n"@ + "/* While the window is maximized. */\n"@),
    ] + button_pieces(gtk, id, "maximize"@, ".maximized "@, 3)
}

/// Which asset the rules name at a place: the close button comes before the maximized one.
pub open spec fn named_at(i: int) -> int {
    if i < 12 {
        i
    } else if i < 16 {
        i + 4
    } else {
        i - 4
    }
}

proof fn pieces_add_up(a: Seq<Piece>, b: Seq<Piece>)
    ensures
        all_written(a + b) == all_written(a) + all_written(b),
        pictures(a + b) == pictures(a) + pictures(b),
    decreases b.len(),
{
    if b.len() == 0 {
        assert(a + b =~= a);
        assert(all_written(a) + all_written(b) =~= all_written(a));
        assert(pictures(a) + pictures(b) =~= pictures(a));
    } else {
        assert((a + b).drop_last() =~= a + b.drop_last());
        pieces_add_up(a, b.drop_last());
        assert(all_written(a + b) =~= all_written(a) + all_written(b));
        assert(pictures(a + b) =~= pictures(a) + pictures(b));
    }
}

proof fn one_piece(piece: Piece)
    ensures
        all_written(seq![piece]) == written(piece),
        pictures(seq![piece]) == match piece {
            Piece::Text(_) => Seq::empty(),
            Piece::Picture { scheme, name } => seq![(scheme, name)],
        },
{
    let one = seq![piece];
    assert(one.drop_last() =~= Seq::empty());
    assert(all_written(one.drop_last()) =~= Seq::empty());
    assert(pictures(one.drop_last()) =~= Seq::empty());
    assert(all_written(one) =~= written(piece));
    assert(pictures(one) =~= match piece {
        Piece::Text(_) => Seq::empty(),
        Piece::Picture { scheme, name } => seq![(scheme, name)],
    });
}

proof fn none_in_two(a: Seq<char>, b: Seq<char>)
    requires
        !a.contains('('),
        !b.contains('('),
    ensures
        !(a + b).contains('('),
{
    if (a + b).contains('(') {
        let i = (a + b).index_of('(');
        if i < a.len() {
            assert(a[i] == '(');
        } else {
            assert(b[i - a.len()] == '(');
        }
    }
}

proof fn a_rule_is_its_pieces(
    gtk: Gtk,
    scheme: Seq<char>,
    class: Seq<char>,
    state: Seq<char>,
    prefix: Seq<char>,
    asset: Seq<char>,
    asset_state: Seq<char>,
)
    ensures
        ({
            let pieces = rule_pieces(
                gtk,
                scheme,
                class,
                state,
                prefix,
                asset + "-"@ + asset_state,
            );
            &&& all_written(pieces) == button_rule(
                gtk,
                scheme,
                class,
                state,
                prefix,
                asset,
                asset_state,
            )
            &&& pictures(pieces) == seq![(scheme, asset + "-"@ + asset_state)]
        }),
{
    let name = asset + "-"@ + asset_state;
    let head = Piece::Text(gtk.selector(class, state, prefix) + " {\n  background-image: "@);
    let picture = Piece::Picture { scheme, name };
    let tail = Piece::Text(";\n}\n"@);
    one_piece(head);
    one_piece(picture);
    one_piece(tail);
    pieces_add_up(seq![head], seq![picture]);
    pieces_add_up(seq![head] + seq![picture], seq![tail]);
    reveal_strlit(" {\n  background-image: ");
    reveal_strlit("url(\"../../assets/");
    reveal_strlit(" {\n  background-image: url(\"../../assets/");
    reveal_strlit(".svg\")");
    reveal_strlit(";\n}\n");
    reveal_strlit(".svg\");\n}\n");
    assert(" {\n  background-image: "@ + "url(\"../../assets/"@
        =~= " {\n  background-image: url(\"../../assets/"@);
    assert(".svg\")"@ + ";\n}\n"@ =~= ".svg\");\n}\n"@);
    let pieces = rule_pieces(gtk, scheme, class, state, prefix, name);
    assert(all_written(pieces) =~= button_rule(
        gtk,
        scheme,
        class,
        state,
        prefix,
        asset,
        asset_state,
    ));
    assert(pictures(pieces) =~= seq![(scheme, name)]);
}

proof fn a_selector_names_nothing(gtk: Gtk, class: Seq<char>, state: Seq<char>, prefix: Seq<char>)
    requires
        !class.contains('('),
        !state.contains('('),
        !prefix.contains('('),
    ensures
        !gtk.selector(class, state, prefix).contains('('),
{
    reveal_strlit("headerbar button.titlebutton.");
    reveal_strlit(",\n");
    reveal_strlit(".titlebar button.titlebutton.");
    reveal_strlit("windowcontrols > button.");
    match gtk {
        Gtk::V3 => {
            let a = "headerbar button.titlebutton."@;
            let b = ".titlebar button.titlebutton."@;
            none_in_two(prefix, a);
            none_in_two(prefix + a, class);
            none_in_two(prefix + a + class, state);
            none_in_two(prefix + a + class + state, ",\n"@);
            none_in_two(prefix + a + class + state + ",\n"@, prefix);
            none_in_two(prefix + a + class + state + ",\n"@ + prefix, b);
            none_in_two(prefix + a + class + state + ",\n"@ + prefix + b, class);
            none_in_two(prefix + a + class + state + ",\n"@ + prefix + b + class, state);
        },
        Gtk::V4 => {
            let a = "windowcontrols > button."@;
            none_in_two(prefix, a);
            none_in_two(prefix + a, class);
            none_in_two(prefix + a + class, state);
        },
    }
}

proof fn a_rules_texts_name_nothing(
    gtk: Gtk,
    scheme: Seq<char>,
    class: Seq<char>,
    state: Seq<char>,
    prefix: Seq<char>,
    name: Seq<char>,
)
    requires
        !class.contains('('),
        !state.contains('('),
        !prefix.contains('('),
    ensures
        forall|i: int|
            0 <= i < rule_pieces(gtk, scheme, class, state, prefix, name).len() ==> names_nothing(
                #[trigger] rule_pieces(gtk, scheme, class, state, prefix, name)[i],
            ),
{
    a_selector_names_nothing(gtk, class, state, prefix);
    reveal_strlit(" {\n  background-image: ");
    reveal_strlit(";\n}\n");
    none_in_two(gtk.selector(class, state, prefix), " {\n  background-image: "@);
}

proof fn a_button_is_its_pieces(
    gtk: Gtk,
    scheme: Seq<char>,
    class: Seq<char>,
    prefix: Seq<char>,
    b: int,
)
    requires
        0 <= b < 5,
        !class.contains('('),
        !prefix.contains('('),
    ensures
        all_written(button_pieces(gtk, scheme, class, prefix, b)) == button_rules(
            gtk,
            scheme,
            class,
            prefix,
            buttons()[b].0,
        ),
        pictures(button_pieces(gtk, scheme, class, prefix, b)) == seq![
            (scheme, nth_name(4 * b)),
            (scheme, nth_name(4 * b + 1)),
            (scheme, nth_name(4 * b + 2)),
            (scheme, nth_name(4 * b + 3)),
        ],
        forall|i: int|
            0 <= i < button_pieces(gtk, scheme, class, prefix, b).len() ==> names_nothing(
                #[trigger] button_pieces(gtk, scheme, class, prefix, b)[i],
            ),
{
    reveal(button_pieces);
    reveal(button_rules);
    let button = buttons()[b].0;
    assert forall|k: int| 0 <= k < 4 implies #[trigger] nth_name(4 * b + k) == button + "-"@
        + state_picture(k) by {
        the_rules_name_the_assets(gtk, scheme, class, prefix, 4 * b + k);
        assert((4 * b + k) / 4 == b);
        assert((4 * b + k) % 4 == k);
    }
    assert(nth_name(4 * b + 0) == button + "-"@ + state_picture(0));
    let p0 = rule_pieces(gtk, scheme, class, ""@, prefix, nth_name(4 * b));
    let p1 = rule_pieces(gtk, scheme, class, ":active"@, prefix, nth_name(4 * b + 1));
    let p2 = rule_pieces(gtk, scheme, class, ":backdrop"@, prefix, nth_name(4 * b + 2));
    let p3 = rule_pieces(gtk, scheme, class, ":backdrop:active"@, prefix, nth_name(4 * b + 3));
    a_rule_is_its_pieces(gtk, scheme, class, ""@, prefix, button, "active"@);
    a_rule_is_its_pieces(gtk, scheme, class, ":active"@, prefix, button, "active-pressed"@);
    a_rule_is_its_pieces(gtk, scheme, class, ":backdrop"@, prefix, button, "backdrop"@);
    a_rule_is_its_pieces(
        gtk,
        scheme,
        class,
        ":backdrop:active"@,
        prefix,
        button,
        "backdrop-pressed"@,
    );
    pieces_add_up(p0, p1);
    pieces_add_up(p0 + p1, p2);
    pieces_add_up(p0 + p1 + p2, p3);
    assert(pictures(p0 + p1 + p2 + p3) =~= seq![
        (scheme, nth_name(4 * b)),
        (scheme, nth_name(4 * b + 1)),
        (scheme, nth_name(4 * b + 2)),
        (scheme, nth_name(4 * b + 3)),
    ]);
    reveal_strlit("");
    reveal_strlit(":active");
    reveal_strlit(":backdrop");
    reveal_strlit(":backdrop:active");
    a_rules_texts_name_nothing(gtk, scheme, class, ""@, prefix, nth_name(4 * b));
    a_rules_texts_name_nothing(gtk, scheme, class, ":active"@, prefix, nth_name(4 * b + 1));
    a_rules_texts_name_nothing(gtk, scheme, class, ":backdrop"@, prefix, nth_name(4 * b + 2));
    a_rules_texts_name_nothing(
        gtk,
        scheme,
        class,
        ":backdrop:active"@,
        prefix,
        nth_name(4 * b + 3),
    );
    let all = button_pieces(gtk, scheme, class, prefix, b);
    assert forall|i: int| 0 <= i < all.len() implies names_nothing(#[trigger] all[i]) by {
        if i < 3 {
            assert(all[i] == p0[i]);
        } else if i < 6 {
            assert(all[i] == p1[i - 3]);
        } else if i < 9 {
            assert(all[i] == p2[i - 6]);
        } else {
            assert(all[i] == p3[i - 9]);
        }
    }
}

proof fn a_color_names_nothing(color: Rgb)
    ensures
        !hex_text(color).contains('('),
{
    reveal_strlit("#");
}

proof fn a_bevel_names_nothing(light: Rgb, dark: Rgb)
    ensures
        !bevel_text(light, dark).contains('('),
{
    a_color_names_nothing(light);
    a_color_names_nothing(dark);
    reveal_strlit("inset 2px 0 0 0 ");
    reveal_strlit(", inset -2px 0 0 0 ");
    reveal_strlit(",\n              inset 0 2px 0 0 ");
    reveal_strlit(", inset 0 -2px 0 0 ");
    let l = hex_text(light);
    let d = hex_text(dark);
    let a = "inset 2px 0 0 0 "@;
    let b = ", inset -2px 0 0 0 "@;
    let c = ",\n              inset 0 2px 0 0 "@;
    let e = ", inset 0 -2px 0 0 "@;
    none_in_two(a, l);
    none_in_two(a + l, b);
    none_in_two(a + l + b, d);
    none_in_two(a + l + b + d, c);
    none_in_two(a + l + b + d + c, l);
    none_in_two(a + l + b + d + c + l, e);
    none_in_two(a + l + b + d + c + l + e, d);
}

proof fn the_bar_names_nothing(p: Palette)
    ensures
        !bar_rules(p).contains('('),
{
    reveal(bar_rules);
    let active = bevel_text(p.title_active_top_shadow, p.title_active_bottom_shadow);
    let inactive = bevel_text(p.title_inactive_top_shadow, p.title_inactive_bottom_shadow);
    a_bevel_names_nothing(p.title_active_top_shadow, p.title_active_bottom_shadow);
    a_bevel_names_nothing(p.title_inactive_top_shadow, p.title_inactive_bottom_shadow);
    let a = "headerbar, .titlebar {\n  background-color: @wlrix_title_active;\n  color: @wlrix_title_active_text;\n  box-shadow: "@;
    let b = ";\n}\n\nheaderbar:backdrop, .titlebar:backdrop {\n  background-color: @wlrix_title_inactive;\n  color: @wlrix_title_inactive_text;\n  box-shadow: "@;
    let c = ";\n}\n\n"@;
    assert(!BAR_COMMENT@.contains('(')) by {
        reveal_strlit(
            "/* The titlebar row. Not a border: a CSS border mitres its corners at 45 degrees and a\n   Motif bevel does not. Not a border-image either -- GTK 3 parses\n   `border-image-slice: 2 fill` and ignores the `fill`, leaving the middle unpainted,\n   which under a compositor is black. Four inset shadows draw it exactly and take\n   their colors from the scheme with no asset at all. */\n",
        );
    }
    assert(!a.contains('(')) by {
        reveal_strlit(
            "headerbar, .titlebar {\n  background-color: @wlrix_title_active;\n  color: @wlrix_title_active_text;\n  box-shadow: ",
        );
    }
    assert(!b.contains('(')) by {
        reveal_strlit(
            ";\n}\n\nheaderbar:backdrop, .titlebar:backdrop {\n  background-color: @wlrix_title_inactive;\n  color: @wlrix_title_inactive_text;\n  box-shadow: ",
        );
    }
    assert(!c.contains('(')) by {
        reveal_strlit(";\n}\n\n");
    }
    none_in_two(BAR_COMMENT@, a);
    none_in_two(BAR_COMMENT@ + a, active);
    none_in_two(BAR_COMMENT@ + a + active, b);
    none_in_two(BAR_COMMENT@ + a + active + b, inactive);
    none_in_two(BAR_COMMENT@ + a + active + b + inactive, c);
}

proof fn the_classes_name_nothing()
    ensures
        !"menu"@.contains('('),
        !"minimize"@.contains('('),
        !"maximize"@.contains('('),
        !"close"@.contains('('),
        !""@.contains('('),
        !".maximized "@.contains('('),
{
    reveal_strlit("menu");
    reveal_strlit("minimize");
    reveal_strlit("maximize");
    reveal_strlit("close");
    reveal_strlit("");
    reveal_strlit(".maximized ");
}

spec fn quiet(pieces: Seq<Piece>) -> bool {
    forall|i: int| 0 <= i < pieces.len() ==> names_nothing(#[trigger] pieces[i])
}

/// What a list of pieces comes to: its text, the pictures it names, and that nothing else in it
/// names one.
#[verifier::opaque]
spec fn stands_for(
    pieces: Seq<Piece>,
    text: Seq<char>,
    named: Seq<(Seq<char>, Seq<char>)>,
) -> bool {
    &&& all_written(pieces) == text
    &&& pictures(pieces) == named
    &&& quiet(pieces)
}

proof fn lists_add_up(
    a: Seq<Piece>,
    s: Seq<char>,
    m: Seq<(Seq<char>, Seq<char>)>,
    b: Seq<Piece>,
    t: Seq<char>,
    n: Seq<(Seq<char>, Seq<char>)>,
)
    requires
        stands_for(a, s, m),
        stands_for(b, t, n),
    ensures
        stands_for(a + b, s + t, m + n),
{
    reveal(stands_for);
    pieces_add_up(a, b);
    assert forall|i: int| 0 <= i < (a + b).len() implies names_nothing(#[trigger] (a + b)[i]) by {
        if i < a.len() {
            assert((a + b)[i] == a[i]);
        } else {
            assert((a + b)[i] == b[i - a.len()]);
        }
    }
}

proof fn a_text_stands_for_itself(text: Seq<char>)
    requires
        !text.contains('('),
    ensures
        stands_for(seq![Piece::Text(text)], text, Seq::empty()),
{
    reveal(stands_for);
    one_piece(Piece::Text(text));
}

#[verifier::opaque]
spec fn four_named(scheme: Seq<char>, b: int) -> Seq<(Seq<char>, Seq<char>)> {
    seq![
        (scheme, nth_name(4 * b)),
        (scheme, nth_name(4 * b + 1)),
        (scheme, nth_name(4 * b + 2)),
        (scheme, nth_name(4 * b + 3)),
    ]
}

proof fn a_button_stands_for_its_rules(
    gtk: Gtk,
    scheme: Seq<char>,
    class: Seq<char>,
    prefix: Seq<char>,
    b: int,
    asset: Seq<char>,
)
    requires
        0 <= b < 5,
        asset == buttons()[b].0,
        !class.contains('('),
        !prefix.contains('('),
    ensures
        stands_for(
            button_pieces(gtk, scheme, class, prefix, b),
            button_rules(gtk, scheme, class, prefix, asset),
            four_named(scheme, b),
        ),
{
    reveal(stands_for);
    reveal(four_named);
    a_button_is_its_pieces(gtk, scheme, class, prefix, b);
}

proof fn five_buttons_add_up(
    bar: Seq<char>,
    line: Seq<char>,
    tail: Seq<char>,
    b0: Seq<Piece>,
    r0: Seq<char>,
    m0: Seq<(Seq<char>, Seq<char>)>,
    b1: Seq<Piece>,
    r1: Seq<char>,
    m1: Seq<(Seq<char>, Seq<char>)>,
    b2: Seq<Piece>,
    r2: Seq<char>,
    m2: Seq<(Seq<char>, Seq<char>)>,
    b3: Seq<Piece>,
    r3: Seq<char>,
    m3: Seq<(Seq<char>, Seq<char>)>,
    b4: Seq<Piece>,
    r4: Seq<char>,
    m4: Seq<(Seq<char>, Seq<char>)>,
)
    requires
        !bar.contains('('),
        !line.contains('('),
        !(line + tail).contains('('),
        stands_for(b0, r0, m0),
        stands_for(b1, r1, m1),
        stands_for(b2, r2, m2),
        stands_for(b3, r3, m3),
        stands_for(b4, r4, m4),
    ensures
        stands_for(
            seq![Piece::Text(bar)] + b0 + seq![Piece::Text(line)] + b1 + seq![
                Piece::Text(line),
            ] + b2 + seq![Piece::Text(line)] + b4 + seq![Piece::Text(line + tail)] + b3,
            bar + r0 + line + r1 + line + r2 + line + r4 + line + tail + r3,
            m0 + m1 + m2 + m4 + m3,
        ),
{
    let note = line + tail;
    let none = Seq::<(Seq<char>, Seq<char>)>::empty();
    a_text_stands_for_itself(bar);
    a_text_stands_for_itself(line);
    a_text_stands_for_itself(note);
    let gap = seq![Piece::Text(line)];
    let p0 = seq![Piece::Text(bar)];
    let (p1, t1, n1) = (p0 + b0, bar + r0, none + m0);
    lists_add_up(p0, bar, none, b0, r0, m0);
    let (p2, t2, n2) = (p1 + gap, t1 + line, n1 + none);
    lists_add_up(p1, t1, n1, gap, line, none);
    let (p3, t3, n3) = (p2 + b1, t2 + r1, n2 + m1);
    lists_add_up(p2, t2, n2, b1, r1, m1);
    let (p4, t4, n4) = (p3 + gap, t3 + line, n3 + none);
    lists_add_up(p3, t3, n3, gap, line, none);
    let (p5, t5, n5) = (p4 + b2, t4 + r2, n4 + m2);
    lists_add_up(p4, t4, n4, b2, r2, m2);
    let (p6, t6, n6) = (p5 + gap, t5 + line, n5 + none);
    lists_add_up(p5, t5, n5, gap, line, none);
    let (p7, t7, n7) = (p6 + b4, t6 + r4, n6 + m4);
    lists_add_up(p6, t6, n6, b4, r4, m4);
    let (p8, t8, n8) = (p7 + seq![Piece::Text(note)], t7 + note, n7 + none);
    lists_add_up(p7, t7, n7, seq![Piece::Text(note)], note, none);
    lists_add_up(p8, t8, n8, b3, r3, m3);
    assert(n1 =~= m0);
    assert(n2 =~= n1);
    assert(n4 =~= n3);
    assert(n6 =~= n5);
    assert(n8 =~= n7);
    assert(t8 + r3 =~= t7 + line + tail + r3);
}

proof fn the_named_are_in_order(id: Seq<char>)
    ensures
        ({
            let named = four_named(id, 0) + four_named(id, 1) + four_named(id, 2) + four_named(
                id,
                4,
            ) + four_named(id, 3);
            &&& named == Seq::new(20, |i: int| (id, nth_name(named_at(i))))
            &&& forall|k: int| 0 <= k < 20 ==> named.contains((id, #[trigger] nth_name(k)))
        }),
{
    reveal(four_named);
    let named = four_named(id, 0) + four_named(id, 1) + four_named(id, 2) + four_named(id, 4)
        + four_named(id, 3);
    let wanted = Seq::new(20, |i: int| (id, nth_name(named_at(i))));
    assert(named =~= wanted);
    assert forall|k: int| 0 <= k < 20 implies named.contains((id, #[trigger] nth_name(k))) by {
        let i = if k < 12 {
            k
        } else if k < 16 {
            k + 4
        } else {
            k - 4
        };
        assert(named_at(i) == k);
        assert(wanted[i] == (id, nth_name(k)));
    }
}

proof fn the_sheet_stands_for_the_rules(p: Palette, gtk: Gtk)
    ensures
        stands_for(
            sheet_pieces(p, gtk),
            rules_text(p, gtk),
            four_named(p.id@, 0) + four_named(p.id@, 1) + four_named(p.id@, 2) + four_named(
                p.id@,
                4,
            ) + four_named(p.id@, 3),
        ),
{
    let id = p.id@;
    let line = "\n"@;
    let tail = "/* While the window is maximized. */\n"@;
    assert(!line.contains('(') && !(line + tail).contains('(')) by {
        reveal_strlit("\n");
        reveal_strlit("/* While the window is maximized. */\n");
        none_in_two(line, tail);
    }
    the_classes_name_nothing();
    the_bar_names_nothing(p);
    a_button_stands_for_its_rules(gtk, id, "menu"@, ""@, 0, "menu"@);
    a_button_stands_for_its_rules(gtk, id, "minimize"@, ""@, 1, "minimize"@);
    a_button_stands_for_its_rules(gtk, id, "maximize"@, ""@, 2, "maximize"@);
    a_button_stands_for_its_rules(gtk, id, "maximize"@, ".maximized "@, 3, "maximized"@);
    a_button_stands_for_its_rules(gtk, id, "close"@, ""@, 4, "close"@);
    five_buttons_add_up(
        bar_rules(p),
        line,
        tail,
        button_pieces(gtk, id, "menu"@, ""@, 0),
        button_rules(gtk, id, "menu"@, ""@, "menu"@),
        four_named(id, 0),
        button_pieces(gtk, id, "minimize"@, ""@, 1),
        button_rules(gtk, id, "minimize"@, ""@, "minimize"@),
        four_named(id, 1),
        button_pieces(gtk, id, "maximize"@, ""@, 2),
        button_rules(gtk, id, "maximize"@, ""@, "maximize"@),
        four_named(id, 2),
        button_pieces(gtk, id, "maximize"@, ".maximized "@, 3),
        button_rules(gtk, id, "maximize"@, ".maximized "@, "maximized"@),
        four_named(id, 3),
        button_pieces(gtk, id, "close"@, ""@, 4),
        button_rules(gtk, id, "close"@, ""@, "close"@),
        four_named(id, 4),
    );
}

/// A scheme's asset rules name each of its assets once, in the scheme's own directory, and no other
/// file: what stands between the pictures holds no parenthesis, so no other `url(..)` either.
pub proof fn the_rules_name_no_other_file(p: Palette, gtk: Gtk)
    ensures
        all_written(sheet_pieces(p, gtk)) == rules_text(p, gtk),
        forall|i: int|
            0 <= i < sheet_pieces(p, gtk).len() ==> names_nothing(
                #[trigger] sheet_pieces(p, gtk)[i],
            ),
        pictures(sheet_pieces(p, gtk)) == Seq::new(20, |i: int| (p.id@, nth_name(named_at(i)))),
        forall|k: int|
            0 <= k < 20 ==> pictures(sheet_pieces(p, gtk)).contains((p.id@, #[trigger] nth_name(k))),
{
    the_sheet_stands_for_the_rules(p, gtk);
    the_named_are_in_order(p.id@);
    reveal(stands_for);
}

} // verus!
