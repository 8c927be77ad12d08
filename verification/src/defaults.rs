//! That the built-in bindings are well formed: every combination among them parses where its key
//! has a keysym, and every action does.
use vstd::prelude::*;

use crate::keybinds::{
    action_named, all_known, combo_or_fault, default_parses, defaults_parse, desk_numbered,
    modifier_named, plain_action, spelt, Spelt, DEFAULTS,
};
use crate::scan::{
    decimal_value, is_space, lower, lowered, natural, split_at_each, trimmed, words_of,
};

verus! {

/// Whether a text is one word without a plus sign in it.
spec fn is_word(s: Seq<char>) -> bool {
    &&& s.len() > 0
    &&& forall|i: int| 0 <= i < s.len() ==> #[trigger] s[i] != '+' && !is_space(s[i])
}

proof fn a_word_is_one_part(s: Seq<char>)
    requires
        is_word(s),
    ensures
        split_at_each(s, '+') == seq![s],
        trimmed(s) == s,
    decreases s.len(),
{
    let fewer = s.drop_last();
    assert(s[s.len() - 1] != '+' && !is_space(s[s.len() - 1]));
    assert(!is_space(s[0]));
    if fewer.len() > 0 {
        assert forall|i: int| 0 <= i < fewer.len() implies #[trigger] fewer[i] != '+' && !is_space(
            fewer[i],
        ) by {
            assert(s[i] != '+' && !is_space(s[i]));
        }
        a_word_is_one_part(fewer);
    } else {
        assert(split_at_each(fewer, '+') =~= seq![Seq::<char>::empty()]);
        assert(fewer =~= Seq::<char>::empty());
    }
    assert(fewer.push(s.last()) =~= s);
    assert(split_at_each(s, '+') =~= seq![s]);
}

proof fn a_word_is_another_part(before: Seq<char>, s: Seq<char>)
    requires
        is_word(s),
    ensures
        split_at_each(before + seq!['+'] + s, '+') == split_at_each(before, '+').push(s),
    decreases s.len(),
{
    let all = before + seq!['+'] + s;
    let fewer = s.drop_last();
    assert(s[s.len() - 1] != '+');
    assert(all.drop_last() =~= before + seq!['+'] + fewer);
    assert(all.last() == s.last());
    if fewer.len() > 0 {
        assert forall|i: int| 0 <= i < fewer.len() implies #[trigger] fewer[i] != '+' && !is_space(
            fewer[i],
        ) by {
            assert(s[i] != '+' && !is_space(s[i]));
        }
        a_word_is_another_part(before, fewer);
        assert(split_at_each(all.drop_last(), '+').drop_last() =~= split_at_each(before, '+'));
    } else {
        let head = before + seq!['+'];
        assert(all.drop_last() =~= head);
        assert(head.drop_last() =~= before);
        assert(split_at_each(head, '+') =~= split_at_each(before, '+').push(Seq::empty()));
        assert(split_at_each(head, '+').drop_last() =~= split_at_each(before, '+'));
        assert(fewer =~= Seq::<char>::empty());
    }
    assert(fewer.push(s.last()) =~= s);
    assert(split_at_each(all, '+') =~= split_at_each(before, '+').push(s));
}

/// Whether a word names a modifier.
#[verifier::opaque]
spec fn is_modifier(s: Seq<char>) -> bool {
    is_word(s) && modifier_named(s) is Some
}

/// Whether a word can name a key.
#[verifier::opaque]
spec fn is_key(s: Seq<char>) -> bool {
    is_word(s) && modifier_named(s) is None
}

/// Whether a combination's text parses, where its key has the keysym `sym`.
#[verifier::opaque]
spec fn combo_parses(text: Seq<char>, sym: u32) -> bool {
    combo_or_fault(text, sym) is Ok
}

/// Whether an action's text parses.
#[verifier::opaque]
spec fn action_parses(text: Seq<char>) -> bool {
    action_named(text) is Ok
}

proof fn a_key_parses(key: Seq<char>, sym: u32)
    requires
        is_key(key),
        sym != 0,
    ensures
        combo_parses(key, sym),
{
    reveal(combo_parses);
    reveal(is_key);
    a_word_is_one_part(key);
    let parts = seq![key];
    assert(parts.drop_last() =~= Seq::<Seq<char>>::empty());
    assert(spelt(parts.drop_last()) is Parts);
    assert(parts.last() == key);
}

proof fn a_key_with_a_modifier_parses(held: Seq<char>, key: Seq<char>, sym: u32)
    requires
        is_modifier(held),
        is_key(key),
        sym != 0,
    ensures
        combo_parses(held + seq!['+'] + key, sym),
{
    reveal(combo_parses);
    reveal(is_modifier);
    reveal(is_key);
    a_word_is_one_part(held);
    a_word_is_one_part(key);
    a_word_is_another_part(held, key);
    let one = seq![held];
    let parts = one.push(key);
    assert(one.drop_last() =~= Seq::<Seq<char>>::empty());
    assert(spelt(one.drop_last()) is Parts);
    assert(one.last() == held);
    assert(spelt(one) matches Spelt::Parts { key: None, .. });
    assert(parts.drop_last() =~= one);
    assert(parts.last() == key);
}

proof fn a_key_with_two_modifiers_parses(
    first: Seq<char>,
    second: Seq<char>,
    key: Seq<char>,
    sym: u32,
)
    requires
        is_modifier(first),
        is_modifier(second),
        is_key(key),
        sym != 0,
    ensures
        combo_parses(first + seq!['+'] + second + seq!['+'] + key, sym),
{
    reveal(combo_parses);
    reveal(is_modifier);
    reveal(is_key);
    a_word_is_one_part(first);
    a_word_is_one_part(second);
    a_word_is_one_part(key);
    a_word_is_another_part(first, second);
    a_word_is_another_part(first + seq!['+'] + second, key);
    let one = seq![first];
    let two = one.push(second);
    let parts = two.push(key);
    assert(one.drop_last() =~= Seq::<Seq<char>>::empty());
    assert(spelt(one.drop_last()) is Parts);
    assert(one.last() == first);
    assert(spelt(one) matches Spelt::Parts { key: None, .. });
    assert(two.drop_last() =~= one);
    assert(two.last() == second);
    assert(spelt(two) matches Spelt::Parts { key: None, .. });
    assert(parts.drop_last() =~= two);
    assert(parts.last() == key);
}

proof fn a_word_is_one_word(s: Seq<char>)
    requires
        is_word(s),
    ensures
        words_of(s) == seq![s],
    decreases s.len(),
{
    let fewer = s.drop_last();
    assert(!is_space(s[s.len() - 1]));
    if fewer.len() > 0 {
        assert forall|i: int| 0 <= i < fewer.len() implies #[trigger] fewer[i] != '+' && !is_space(
            fewer[i],
        ) by {
            assert(s[i] != '+' && !is_space(s[i]));
        }
        assert(!is_space(s[s.len() - 2]));
        a_word_is_one_word(fewer);
    } else {
        assert(words_of(fewer) =~= Seq::empty());
        assert(seq![s.last()] =~= s);
    }
    assert(fewer.push(s.last()) =~= s);
    assert(words_of(s) =~= seq![s]);
}

proof fn a_word_is_another_word(before: Seq<char>, s: Seq<char>)
    requires
        is_word(s),
    ensures
        words_of(before + seq![' '] + s) == words_of(before).push(s),
    decreases s.len(),
{
    let all = before + seq![' '] + s;
    let fewer = s.drop_last();
    assert(!is_space(s[s.len() - 1]));
    assert(all.drop_last() =~= before + seq![' '] + fewer);
    assert(all.last() == s.last());
    if fewer.len() > 0 {
        assert forall|i: int| 0 <= i < fewer.len() implies #[trigger] fewer[i] != '+' && !is_space(
            fewer[i],
        ) by {
            assert(s[i] != '+' && !is_space(s[i]));
        }
        assert(all[all.len() - 2] == s[s.len() - 2]);
        a_word_is_another_word(before, fewer);
        assert(words_of(all.drop_last()).drop_last() =~= words_of(before));
    } else {
        let head = before + seq![' '];
        assert(all.drop_last() =~= head);
        assert(head.drop_last() =~= before);
        assert(head.last() == ' ');
        assert(words_of(head) =~= words_of(before));
        assert(all[all.len() - 2] == ' ');
        assert(seq![s.last()] =~= s);
    }
    assert(fewer.push(s.last()) =~= s);
    assert(words_of(all) =~= words_of(before).push(s));
}

/// Whether a word names an action that takes no argument.
#[verifier::opaque]
spec fn is_action(s: Seq<char>) -> bool {
    is_word(s) && plain_action(s) is Some && s != "switch-desk"@ && s != "move-to-desk"@
}

proof fn an_action_parses(name: Seq<char>)
    requires
        is_action(name),
    ensures
        action_parses(name),
{
    reveal(action_parses);
    reveal(is_action);
    a_word_is_one_word(name);
}

proof fn a_desk_parses(name: Seq<char>, digit: Seq<char>)
    requires
        name == "switch-desk"@ || name == "move-to-desk"@,
        digit.len() == 1,
        49 <= digit[0] as u32 <= 57,
    ensures
        action_parses(name + seq![' '] + digit),
{
    reveal(action_parses);
    reveal_strlit("switch-desk");
    reveal_strlit("move-to-desk");
    assert(is_word(name));
    assert(is_word(digit));
    a_word_is_one_word(name);
    a_word_is_another_word(name, digit);
    assert(digit.drop_last() =~= Seq::<char>::empty());
    assert(decimal_value(digit.drop_last()) == 0);
    assert(decimal_value(digit) == digit[0] as u32 - 48);
    assert(natural(digit) == Some(decimal_value(digit)));
    assert(desk_numbered(digit) is Some);
}

proof fn the_modifiers_are_modifiers()
    ensures
        is_modifier("Alt"@),
        is_modifier("Ctrl"@),
        is_modifier("Shift"@),
        is_modifier("Super"@),
{
    assert(is_modifier("Alt"@)) by {
        reveal(is_modifier);
        reveal_strlit("Alt");
        reveal_strlit("alt");
        assert(lowered("Alt"@) =~= "alt"@);
    }
    assert(is_modifier("Ctrl"@)) by {
        reveal(is_modifier);
        reveal_strlit("Ctrl");
        reveal_strlit("ctrl");
        assert(lowered("Ctrl"@) =~= "ctrl"@);
    }
    assert(is_modifier("Shift"@)) by {
        reveal(is_modifier);
        reveal_strlit("Shift");
        reveal_strlit("shift");
        assert(lowered("Shift"@) =~= "shift"@);
    }
    assert(is_modifier("Super"@)) by {
        reveal(is_modifier);
        reveal_strlit("Super");
        reveal_strlit("super");
        assert(lowered("Super"@) =~= "super"@);
    }
}

proof fn no_modifier_is_spelt_like(s: Seq<char>)
    requires
        s.len() == 1 || s.len() == 2 || s.len() == 9 || s.len() > 1 && (s[0] == 'F' || s[0] == 'P'
            || s[0] == 'D' || s[1] == 'p'),
    ensures
        modifier_named(s) is None,
{
    reveal_strlit("ctrl");
    reveal_strlit("control");
    reveal_strlit("alt");
    reveal_strlit("shift");
    reveal_strlit("super");
    reveal_strlit("logo");
    reveal_strlit("meta");
    reveal_strlit("win");
    let low = lowered(s);
    assert(low.len() == s.len());
    if s.len() > 1 {
        assert(low[0] == lower(s[0]));
        assert(low[1] == lower(s[1]));
    }
}

proof fn the_keys_are_keys()
    ensures
        is_key("F5"@),
        is_key("F7"@),
        is_key("F8"@),
        is_key("F9"@),
        is_key("F10"@),
        is_key("F1"@),
        is_key("F3"@),
        is_key("F4"@),
        is_key("Print"@),
        is_key("BackSpace"@),
        is_key("space"@),
        is_key("1"@),
        is_key("2"@),
        is_key("3"@),
        is_key("4"@),
        is_key("5"@),
        is_key("6"@),
        is_key("7"@),
        is_key("8"@),
        is_key("9"@),
        is_key("Up"@),
        is_key("Down"@),
        is_key("f"@),
        is_key("m"@),
        is_key("l"@),
{
    assert(is_key("F5"@)) by {
        reveal(is_key);
        reveal_strlit("F5");
        no_modifier_is_spelt_like("F5"@);
    }
    assert(is_key("F7"@)) by {
        reveal(is_key);
        reveal_strlit("F7");
        no_modifier_is_spelt_like("F7"@);
    }
    assert(is_key("F8"@)) by {
        reveal(is_key);
        reveal_strlit("F8");
        no_modifier_is_spelt_like("F8"@);
    }
    assert(is_key("F9"@)) by {
        reveal(is_key);
        reveal_strlit("F9");
        no_modifier_is_spelt_like("F9"@);
    }
    assert(is_key("F10"@)) by {
        reveal(is_key);
        reveal_strlit("F10");
        no_modifier_is_spelt_like("F10"@);
    }
    assert(is_key("F1"@)) by {
        reveal(is_key);
        reveal_strlit("F1");
        no_modifier_is_spelt_like("F1"@);
    }
    assert(is_key("F3"@)) by {
        reveal(is_key);
        reveal_strlit("F3");
        no_modifier_is_spelt_like("F3"@);
    }
    assert(is_key("F4"@)) by {
        reveal(is_key);
        reveal_strlit("F4");
        no_modifier_is_spelt_like("F4"@);
    }
    assert(is_key("Print"@)) by {
        reveal(is_key);
        reveal_strlit("Print");
        no_modifier_is_spelt_like("Print"@);
    }
    assert(is_key("BackSpace"@)) by {
        reveal(is_key);
        reveal_strlit("BackSpace");
        no_modifier_is_spelt_like("BackSpace"@);
    }
    assert(is_key("space"@)) by {
        reveal(is_key);
        reveal_strlit("space");
        no_modifier_is_spelt_like("space"@);
    }
    assert(is_key("1"@)) by {
        reveal(is_key);
        reveal_strlit("1");
        no_modifier_is_spelt_like("1"@);
    }
    assert(is_key("2"@)) by {
        reveal(is_key);
        reveal_strlit("2");
        no_modifier_is_spelt_like("2"@);
    }
    assert(is_key("3"@)) by {
        reveal(is_key);
        reveal_strlit("3");
        no_modifier_is_spelt_like("3"@);
    }
    assert(is_key("4"@)) by {
        reveal(is_key);
        reveal_strlit("4");
        no_modifier_is_spelt_like("4"@);
    }
    assert(is_key("5"@)) by {
        reveal(is_key);
        reveal_strlit("5");
        no_modifier_is_spelt_like("5"@);
    }
    assert(is_key("6"@)) by {
        reveal(is_key);
        reveal_strlit("6");
        no_modifier_is_spelt_like("6"@);
    }
    assert(is_key("7"@)) by {
        reveal(is_key);
        reveal_strlit("7");
        no_modifier_is_spelt_like("7"@);
    }
    assert(is_key("8"@)) by {
        reveal(is_key);
        reveal_strlit("8");
        no_modifier_is_spelt_like("8"@);
    }
    assert(is_key("9"@)) by {
        reveal(is_key);
        reveal_strlit("9");
        no_modifier_is_spelt_like("9"@);
    }
    assert(is_key("Up"@)) by {
        reveal(is_key);
        reveal_strlit("Up");
        no_modifier_is_spelt_like("Up"@);
    }
    assert(is_key("Down"@)) by {
        reveal(is_key);
        reveal_strlit("Down");
        no_modifier_is_spelt_like("Down"@);
    }
    assert(is_key("f"@)) by {
        reveal(is_key);
        reveal_strlit("f");
        no_modifier_is_spelt_like("f"@);
    }
    assert(is_key("m"@)) by {
        reveal(is_key);
        reveal_strlit("m");
        no_modifier_is_spelt_like("m"@);
    }
    assert(is_key("l"@)) by {
        reveal(is_key);
        reveal_strlit("l");
        no_modifier_is_spelt_like("l"@);
    }
}

proof fn the_actions_are_actions()
    ensures
        is_action("restore"@),
        is_action("move"@),
        is_action("size"@),
        is_action("minimize"@),
        is_action("maximize"@),
        is_action("raise"@),
        is_action("lower"@),
        is_action("close"@),
        is_action("screenshot"@),
        is_action("screenshot-window"@),
        is_action("screenshot-screen"@),
        is_action("quit"@),
        is_action("cycle-layout"@),
        is_action("create-desk"@),
        is_action("delete-desk"@),
        is_action("maximize-toggle"@),
        is_action("restore-all"@),
{
    assert(is_action("restore"@)) by {
        reveal(is_action);
        reveal_strlit("switch-desk");
        reveal_strlit("move-to-desk");
        reveal_strlit("restore");
        assert(is_word("restore"@));
    }
    assert(is_action("move"@)) by {
        reveal(is_action);
        reveal_strlit("switch-desk");
        reveal_strlit("move-to-desk");
        reveal_strlit("move");
        assert(is_word("move"@));
    }
    assert(is_action("size"@)) by {
        reveal(is_action);
        reveal_strlit("switch-desk");
        reveal_strlit("move-to-desk");
        reveal_strlit("size");
        assert(is_word("size"@));
    }
    assert(is_action("minimize"@)) by {
        reveal(is_action);
        reveal_strlit("switch-desk");
        reveal_strlit("move-to-desk");
        reveal_strlit("minimize");
        assert(is_word("minimize"@));
    }
    assert(is_action("maximize"@)) by {
        reveal(is_action);
        reveal_strlit("switch-desk");
        reveal_strlit("move-to-desk");
        reveal_strlit("maximize");
        assert(is_word("maximize"@));
    }
    assert(is_action("raise"@)) by {
        reveal(is_action);
        reveal_strlit("switch-desk");
        reveal_strlit("move-to-desk");
        reveal_strlit("raise");
        assert(is_word("raise"@));
    }
    assert(is_action("lower"@)) by {
        reveal(is_action);
        reveal_strlit("switch-desk");
        reveal_strlit("move-to-desk");
        reveal_strlit("lower");
        assert(is_word("lower"@));
    }
    assert(is_action("close"@)) by {
        reveal(is_action);
        reveal_strlit("switch-desk");
        reveal_strlit("move-to-desk");
        reveal_strlit("close");
        assert(is_word("close"@));
    }
    assert(is_action("screenshot"@)) by {
        reveal(is_action);
        reveal_strlit("switch-desk");
        reveal_strlit("move-to-desk");
        reveal_strlit("screenshot");
        assert(is_word("screenshot"@));
    }
    assert(is_action("screenshot-window"@)) by {
        reveal(is_action);
        reveal_strlit("switch-desk");
        reveal_strlit("move-to-desk");
        reveal_strlit("screenshot-window");
        assert(is_word("screenshot-window"@));
    }
    assert(is_action("screenshot-screen"@)) by {
        reveal(is_action);
        reveal_strlit("switch-desk");
        reveal_strlit("move-to-desk");
        reveal_strlit("screenshot-screen");
        assert(is_word("screenshot-screen"@));
    }
    assert(is_action("quit"@)) by {
        reveal(is_action);
        reveal_strlit("switch-desk");
        reveal_strlit("move-to-desk");
        reveal_strlit("quit");
        assert(is_word("quit"@));
    }
    assert(is_action("cycle-layout"@)) by {
        reveal(is_action);
        reveal_strlit("switch-desk");
        reveal_strlit("move-to-desk");
        reveal_strlit("cycle-layout");
        assert(is_word("cycle-layout"@));
        assert("cycle-layout"@[0] != "move-to-desk"@[0]);
    }
    assert(is_action("create-desk"@)) by {
        reveal(is_action);
        reveal_strlit("switch-desk");
        reveal_strlit("move-to-desk");
        reveal_strlit("create-desk");
        assert(is_word("create-desk"@));
        assert("create-desk"@[0] != "switch-desk"@[0]);
    }
    assert(is_action("delete-desk"@)) by {
        reveal(is_action);
        reveal_strlit("switch-desk");
        reveal_strlit("move-to-desk");
        reveal_strlit("delete-desk");
        assert(is_word("delete-desk"@));
        assert("delete-desk"@[0] != "switch-desk"@[0]);
    }
    assert(is_action("maximize-toggle"@)) by {
        reveal(is_action);
        reveal_strlit("switch-desk");
        reveal_strlit("move-to-desk");
        reveal_strlit("maximize-toggle");
        assert(is_word("maximize-toggle"@));
    }
    assert(is_action("restore-all"@)) by {
        reveal(is_action);
        reveal_strlit("switch-desk");
        reveal_strlit("move-to-desk");
        reveal_strlit("restore-all");
        assert(is_word("restore-all"@));
        assert("restore-all"@[0] != "switch-desk"@[0]);
    }
}

/// Whether the default at `i` parses, where its key has the keysym `sym`.
spec fn parses(i: int, sym: u32) -> bool {
    combo_parses(DEFAULTS@[i].0@, sym) && action_parses(DEFAULTS@[i].1@)
}

proof fn the_window_bindings_parse(syms: Seq<u32>)
    requires
        all_known(syms),
    ensures
        parses(0, syms[0]),
        parses(1, syms[1]),
        parses(2, syms[2]),
        parses(3, syms[3]),
        parses(4, syms[4]),
        parses(5, syms[5]),
        parses(6, syms[6]),
        parses(7, syms[7]),
{
    the_modifiers_are_modifiers();
    the_keys_are_keys();
    the_actions_are_actions();
    reveal_strlit("Alt");
    reveal_strlit("F5");
    reveal_strlit("F7");
    reveal_strlit("F8");
    reveal_strlit("F9");
    reveal_strlit("F10");
    reveal_strlit("F1");
    reveal_strlit("F3");
    reveal_strlit("F4");
    assert(parses(0, syms[0])) by {
        reveal_strlit("Alt+F5");
        assert("Alt+F5"@ =~= "Alt"@ + seq!['+'] + "F5"@);
        a_key_with_a_modifier_parses("Alt"@, "F5"@, syms[0]);
        an_action_parses("restore"@);
    }
    assert(parses(1, syms[1])) by {
        reveal_strlit("Alt+F7");
        assert("Alt+F7"@ =~= "Alt"@ + seq!['+'] + "F7"@);
        a_key_with_a_modifier_parses("Alt"@, "F7"@, syms[1]);
        an_action_parses("move"@);
    }
    assert(parses(2, syms[2])) by {
        reveal_strlit("Alt+F8");
        assert("Alt+F8"@ =~= "Alt"@ + seq!['+'] + "F8"@);
        a_key_with_a_modifier_parses("Alt"@, "F8"@, syms[2]);
        an_action_parses("size"@);
    }
    assert(parses(3, syms[3])) by {
        reveal_strlit("Alt+F9");
        assert("Alt+F9"@ =~= "Alt"@ + seq!['+'] + "F9"@);
        a_key_with_a_modifier_parses("Alt"@, "F9"@, syms[3]);
        an_action_parses("minimize"@);
    }
    assert(parses(4, syms[4])) by {
        reveal_strlit("Alt+F10");
        assert("Alt+F10"@ =~= "Alt"@ + seq!['+'] + "F10"@);
        a_key_with_a_modifier_parses("Alt"@, "F10"@, syms[4]);
        an_action_parses("maximize"@);
    }
    assert(parses(5, syms[5])) by {
        reveal_strlit("Alt+F1");
        assert("Alt+F1"@ =~= "Alt"@ + seq!['+'] + "F1"@);
        a_key_with_a_modifier_parses("Alt"@, "F1"@, syms[5]);
        an_action_parses("raise"@);
    }
    assert(parses(6, syms[6])) by {
        reveal_strlit("Alt+F3");
        assert("Alt+F3"@ =~= "Alt"@ + seq!['+'] + "F3"@);
        a_key_with_a_modifier_parses("Alt"@, "F3"@, syms[6]);
        an_action_parses("lower"@);
    }
    assert(parses(7, syms[7])) by {
        reveal_strlit("Alt+F4");
        assert("Alt+F4"@ =~= "Alt"@ + seq!['+'] + "F4"@);
        a_key_with_a_modifier_parses("Alt"@, "F4"@, syms[7]);
        an_action_parses("close"@);
    }
}

proof fn the_switching_bindings_parse(syms: Seq<u32>)
    requires
        all_known(syms),
    ensures
        parses(13, syms[13]),
        parses(14, syms[14]),
        parses(15, syms[15]),
        parses(16, syms[16]),
        parses(17, syms[17]),
        parses(18, syms[18]),
        parses(19, syms[19]),
        parses(20, syms[20]),
        parses(21, syms[21]),
{
    the_modifiers_are_modifiers();
    the_keys_are_keys();
    reveal_strlit("Super");
    reveal_strlit("1");
    reveal_strlit("switch-desk");
    reveal_strlit("2");
    reveal_strlit("3");
    reveal_strlit("4");
    reveal_strlit("5");
    reveal_strlit("6");
    reveal_strlit("7");
    reveal_strlit("8");
    reveal_strlit("9");
    assert(parses(13, syms[13])) by {
        reveal_strlit("Super+1");
        assert("Super+1"@ =~= "Super"@ + seq!['+'] + "1"@);
        a_key_with_a_modifier_parses("Super"@, "1"@, syms[13]);
        reveal_strlit("switch-desk 1");
        assert("switch-desk 1"@ =~= "switch-desk"@ + seq![' '] + "1"@);
        a_desk_parses("switch-desk"@, "1"@);
    }
    assert(parses(14, syms[14])) by {
        reveal_strlit("Super+2");
        assert("Super+2"@ =~= "Super"@ + seq!['+'] + "2"@);
        a_key_with_a_modifier_parses("Super"@, "2"@, syms[14]);
        reveal_strlit("switch-desk 2");
        assert("switch-desk 2"@ =~= "switch-desk"@ + seq![' '] + "2"@);
        a_desk_parses("switch-desk"@, "2"@);
    }
    assert(parses(15, syms[15])) by {
        reveal_strlit("Super+3");
        assert("Super+3"@ =~= "Super"@ + seq!['+'] + "3"@);
        a_key_with_a_modifier_parses("Super"@, "3"@, syms[15]);
        reveal_strlit("switch-desk 3");
        assert("switch-desk 3"@ =~= "switch-desk"@ + seq![' '] + "3"@);
        a_desk_parses("switch-desk"@, "3"@);
    }
    assert(parses(16, syms[16])) by {
        reveal_strlit("Super+4");
        assert("Super+4"@ =~= "Super"@ + seq!['+'] + "4"@);
        a_key_with_a_modifier_parses("Super"@, "4"@, syms[16]);
        reveal_strlit("switch-desk 4");
        assert("switch-desk 4"@ =~= "switch-desk"@ + seq![' '] + "4"@);
        a_desk_parses("switch-desk"@, "4"@);
    }
    assert(parses(17, syms[17])) by {
        reveal_strlit("Super+5");
        assert("Super+5"@ =~= "Super"@ + seq!['+'] + "5"@);
        a_key_with_a_modifier_parses("Super"@, "5"@, syms[17]);
        reveal_strlit("switch-desk 5");
        assert("switch-desk 5"@ =~= "switch-desk"@ + seq![' '] + "5"@);
        a_desk_parses("switch-desk"@, "5"@);
    }
    assert(parses(18, syms[18])) by {
        reveal_strlit("Super+6");
        assert("Super+6"@ =~= "Super"@ + seq!['+'] + "6"@);
        a_key_with_a_modifier_parses("Super"@, "6"@, syms[18]);
        reveal_strlit("switch-desk 6");
        assert("switch-desk 6"@ =~= "switch-desk"@ + seq![' '] + "6"@);
        a_desk_parses("switch-desk"@, "6"@);
    }
    assert(parses(19, syms[19])) by {
        reveal_strlit("Super+7");
        assert("Super+7"@ =~= "Super"@ + seq!['+'] + "7"@);
        a_key_with_a_modifier_parses("Super"@, "7"@, syms[19]);
        reveal_strlit("switch-desk 7");
        assert("switch-desk 7"@ =~= "switch-desk"@ + seq![' '] + "7"@);
        a_desk_parses("switch-desk"@, "7"@);
    }
    assert(parses(20, syms[20])) by {
        reveal_strlit("Super+8");
        assert("Super+8"@ =~= "Super"@ + seq!['+'] + "8"@);
        a_key_with_a_modifier_parses("Super"@, "8"@, syms[20]);
        reveal_strlit("switch-desk 8");
        assert("switch-desk 8"@ =~= "switch-desk"@ + seq![' '] + "8"@);
        a_desk_parses("switch-desk"@, "8"@);
    }
    assert(parses(21, syms[21])) by {
        reveal_strlit("Super+9");
        assert("Super+9"@ =~= "Super"@ + seq!['+'] + "9"@);
        a_key_with_a_modifier_parses("Super"@, "9"@, syms[21]);
        reveal_strlit("switch-desk 9");
        assert("switch-desk 9"@ =~= "switch-desk"@ + seq![' '] + "9"@);
        a_desk_parses("switch-desk"@, "9"@);
    }
}

proof fn the_moving_bindings_parse(syms: Seq<u32>)
    requires
        all_known(syms),
    ensures
        parses(22, syms[22]),
        parses(23, syms[23]),
        parses(24, syms[24]),
        parses(25, syms[25]),
        parses(26, syms[26]),
        parses(27, syms[27]),
        parses(28, syms[28]),
        parses(29, syms[29]),
        parses(30, syms[30]),
{
    the_modifiers_are_modifiers();
    the_keys_are_keys();
    reveal_strlit("Super");
    reveal_strlit("Ctrl");
    reveal_strlit("1");
    reveal_strlit("move-to-desk");
    reveal_strlit("2");
    reveal_strlit("3");
    reveal_strlit("4");
    reveal_strlit("5");
    reveal_strlit("6");
    reveal_strlit("7");
    reveal_strlit("8");
    reveal_strlit("9");
    assert(parses(22, syms[22])) by {
        reveal_strlit("Super+Ctrl+1");
        assert("Super+Ctrl+1"@ =~= "Super"@ + seq!['+'] + "Ctrl"@ + seq!['+'] + "1"@);
        a_key_with_two_modifiers_parses("Super"@, "Ctrl"@, "1"@, syms[22]);
        reveal_strlit("move-to-desk 1");
        assert("move-to-desk 1"@ =~= "move-to-desk"@ + seq![' '] + "1"@);
        a_desk_parses("move-to-desk"@, "1"@);
    }
    assert(parses(23, syms[23])) by {
        reveal_strlit("Super+Ctrl+2");
        assert("Super+Ctrl+2"@ =~= "Super"@ + seq!['+'] + "Ctrl"@ + seq!['+'] + "2"@);
        a_key_with_two_modifiers_parses("Super"@, "Ctrl"@, "2"@, syms[23]);
        reveal_strlit("move-to-desk 2");
        assert("move-to-desk 2"@ =~= "move-to-desk"@ + seq![' '] + "2"@);
        a_desk_parses("move-to-desk"@, "2"@);
    }
    assert(parses(24, syms[24])) by {
        reveal_strlit("Super+Ctrl+3");
        assert("Super+Ctrl+3"@ =~= "Super"@ + seq!['+'] + "Ctrl"@ + seq!['+'] + "3"@);
        a_key_with_two_modifiers_parses("Super"@, "Ctrl"@, "3"@, syms[24]);
        reveal_strlit("move-to-desk 3");
        assert("move-to-desk 3"@ =~= "move-to-desk"@ + seq![' '] + "3"@);
        a_desk_parses("move-to-desk"@, "3"@);
    }
    assert(parses(25, syms[25])) by {
        reveal_strlit("Super+Ctrl+4");
        assert("Super+Ctrl+4"@ =~= "Super"@ + seq!['+'] + "Ctrl"@ + seq!['+'] + "4"@);
        a_key_with_two_modifiers_parses("Super"@, "Ctrl"@, "4"@, syms[25]);
        reveal_strlit("move-to-desk 4");
        assert("move-to-desk 4"@ =~= "move-to-desk"@ + seq![' '] + "4"@);
        a_desk_parses("move-to-desk"@, "4"@);
    }
    assert(parses(26, syms[26])) by {
        reveal_strlit("Super+Ctrl+5");
        assert("Super+Ctrl+5"@ =~= "Super"@ + seq!['+'] + "Ctrl"@ + seq!['+'] + "5"@);
        a_key_with_two_modifiers_parses("Super"@, "Ctrl"@, "5"@, syms[26]);
        reveal_strlit("move-to-desk 5");
        assert("move-to-desk 5"@ =~= "move-to-desk"@ + seq![' '] + "5"@);
        a_desk_parses("move-to-desk"@, "5"@);
    }
    assert(parses(27, syms[27])) by {
        reveal_strlit("Super+Ctrl+6");
        assert("Super+Ctrl+6"@ =~= "Super"@ + seq!['+'] + "Ctrl"@ + seq!['+'] + "6"@);
        a_key_with_two_modifiers_parses("Super"@, "Ctrl"@, "6"@, syms[27]);
        reveal_strlit("move-to-desk 6");
        assert("move-to-desk 6"@ =~= "move-to-desk"@ + seq![' '] + "6"@);
        a_desk_parses("move-to-desk"@, "6"@);
    }
    assert(parses(28, syms[28])) by {
        reveal_strlit("Super+Ctrl+7");
        assert("Super+Ctrl+7"@ =~= "Super"@ + seq!['+'] + "Ctrl"@ + seq!['+'] + "7"@);
        a_key_with_two_modifiers_parses("Super"@, "Ctrl"@, "7"@, syms[28]);
        reveal_strlit("move-to-desk 7");
        assert("move-to-desk 7"@ =~= "move-to-desk"@ + seq![' '] + "7"@);
        a_desk_parses("move-to-desk"@, "7"@);
    }
    assert(parses(29, syms[29])) by {
        reveal_strlit("Super+Ctrl+8");
        assert("Super+Ctrl+8"@ =~= "Super"@ + seq!['+'] + "Ctrl"@ + seq!['+'] + "8"@);
        a_key_with_two_modifiers_parses("Super"@, "Ctrl"@, "8"@, syms[29]);
        reveal_strlit("move-to-desk 8");
        assert("move-to-desk 8"@ =~= "move-to-desk"@ + seq![' '] + "8"@);
        a_desk_parses("move-to-desk"@, "8"@);
    }
    assert(parses(30, syms[30])) by {
        reveal_strlit("Super+Ctrl+9");
        assert("Super+Ctrl+9"@ =~= "Super"@ + seq!['+'] + "Ctrl"@ + seq!['+'] + "9"@);
        a_key_with_two_modifiers_parses("Super"@, "Ctrl"@, "9"@, syms[30]);
        reveal_strlit("move-to-desk 9");
        assert("move-to-desk 9"@ =~= "move-to-desk"@ + seq![' '] + "9"@);
        a_desk_parses("move-to-desk"@, "9"@);
    }
}

proof fn the_other_bindings_parse(syms: Seq<u32>)
    requires
        all_known(syms),
    ensures
        parses(8, syms[8]),
        parses(9, syms[9]),
        parses(10, syms[10]),
        parses(11, syms[11]),
        parses(12, syms[12]),
        parses(31, syms[31]),
        parses(32, syms[32]),
        parses(33, syms[33]),
        parses(34, syms[34]),
        parses(35, syms[35]),
        parses(36, syms[36]),
{
    the_modifiers_are_modifiers();
    the_keys_are_keys();
    the_actions_are_actions();
    reveal_strlit("Alt");
    reveal_strlit("Print");
    reveal_strlit("Shift");
    reveal_strlit("Ctrl");
    reveal_strlit("BackSpace");
    reveal_strlit("Super");
    reveal_strlit("space");
    reveal_strlit("Up");
    reveal_strlit("Down");
    reveal_strlit("f");
    reveal_strlit("m");
    reveal_strlit("l");
    assert(parses(8, syms[8])) by {
        a_key_parses("Print"@, syms[8]);
        an_action_parses("screenshot"@);
    }
    assert(parses(9, syms[9])) by {
        reveal_strlit("Alt+Print");
        assert("Alt+Print"@ =~= "Alt"@ + seq!['+'] + "Print"@);
        a_key_with_a_modifier_parses("Alt"@, "Print"@, syms[9]);
        an_action_parses("screenshot-window"@);
    }
    assert(parses(10, syms[10])) by {
        reveal_strlit("Shift+Print");
        assert("Shift+Print"@ =~= "Shift"@ + seq!['+'] + "Print"@);
        a_key_with_a_modifier_parses("Shift"@, "Print"@, syms[10]);
        an_action_parses("screenshot-screen"@);
    }
    assert(parses(11, syms[11])) by {
        reveal_strlit("Ctrl+Alt+BackSpace");
        assert("Ctrl+Alt+BackSpace"@ =~= "Ctrl"@ + seq!['+'] + "Alt"@ + seq!['+'] + "BackSpace"@);
        a_key_with_two_modifiers_parses("Ctrl"@, "Alt"@, "BackSpace"@, syms[11]);
        an_action_parses("quit"@);
    }
    assert(parses(12, syms[12])) by {
        reveal_strlit("Super+space");
        assert("Super+space"@ =~= "Super"@ + seq!['+'] + "space"@);
        a_key_with_a_modifier_parses("Super"@, "space"@, syms[12]);
        an_action_parses("cycle-layout"@);
    }
    assert(parses(31, syms[31])) by {
        reveal_strlit("Super+Shift+Up");
        assert("Super+Shift+Up"@ =~= "Super"@ + seq!['+'] + "Shift"@ + seq!['+'] + "Up"@);
        a_key_with_two_modifiers_parses("Super"@, "Shift"@, "Up"@, syms[31]);
        an_action_parses("create-desk"@);
    }
    assert(parses(32, syms[32])) by {
        reveal_strlit("Super+Shift+Down");
        assert("Super+Shift+Down"@ =~= "Super"@ + seq!['+'] + "Shift"@ + seq!['+'] + "Down"@);
        a_key_with_two_modifiers_parses("Super"@, "Shift"@, "Down"@, syms[32]);
        an_action_parses("delete-desk"@);
    }
    assert(parses(33, syms[33])) by {
        reveal_strlit("Super+f");
        assert("Super+f"@ =~= "Super"@ + seq!['+'] + "f"@);
        a_key_with_a_modifier_parses("Super"@, "f"@, syms[33]);
        an_action_parses("maximize-toggle"@);
    }
    assert(parses(34, syms[34])) by {
        reveal_strlit("Super+m");
        assert("Super+m"@ =~= "Super"@ + seq!['+'] + "m"@);
        a_key_with_a_modifier_parses("Super"@, "m"@, syms[34]);
        an_action_parses("minimize"@);
    }
    assert(parses(35, syms[35])) by {
        reveal_strlit("Super+Shift+m");
        assert("Super+Shift+m"@ =~= "Super"@ + seq!['+'] + "Shift"@ + seq!['+'] + "m"@);
        a_key_with_two_modifiers_parses("Super"@, "Shift"@, "m"@, syms[35]);
        an_action_parses("restore-all"@);
    }
    assert(parses(36, syms[36])) by {
        reveal_strlit("Super+l");
        assert("Super+l"@ =~= "Super"@ + seq!['+'] + "l"@);
        a_key_with_a_modifier_parses("Super"@, "l"@, syms[36]);
        an_action_parses("lower"@);
    }
}

/// Every built-in binding parses, whatever the keysyms of its keys, as long as they have one.
pub proof fn every_default_parses(syms: Seq<u32>)
    requires
        all_known(syms),
    ensures
        defaults_parse(syms),
{
    the_window_bindings_parse(syms);
    the_switching_bindings_parse(syms);
    the_moving_bindings_parse(syms);
    the_other_bindings_parse(syms);
    assert forall|i: int| 0 <= i < DEFAULTS@.len() implies default_parses(
        i,
        #[trigger] syms[i],
    ) by {
        assert(parses(i, syms[i]));
        reveal(combo_parses);
        reveal(action_parses);
    }
}

} // verus!
