//! The built-in Chat plugin and its action.
use vstd::prelude::*;

use crate::actions::{ActionDescriptor, DescriptorView, ActionKindView, PluginDescriptor, PluginView};
use crate::plugin::{ActionId, Capability, PluginId, split_on, valid_plugin_id, valid_token, plugin_segment_ok, token_char};

verus! {

/// A text without separators is a single piece.
proof fn lemma_split_single(t: Seq<char>, sep: char)
    requires
        !t.contains(sep),
    ensures
        split_on(t, sep) == seq![t],
    decreases t.len(),
{
    if t.len() == 0 {
        assert(t =~= Seq::<char>::empty());
    } else {
        assert(!t.drop_last().contains(sep)) by {
            if t.drop_last().contains(sep) {
                let i = choose|i: int| 0 <= i < t.drop_last().len() && t.drop_last()[i] == sep;
                assert(t[i] == sep);
            }
        }
        lemma_split_single(t.drop_last(), sep);
        assert(t.last() != sep) by {
            assert(t[t.len() - 1] == t.last());
        }
        assert(t.drop_last().push(t.last()) =~= t);
        let rest = split_on(t.drop_last(), sep);
        assert(rest.len() - 1 == 0 && rest.last() == t.drop_last());
        assert(split_on(t, sep) == rest.update(rest.len() - 1, rest.last().push(t.last())));
        assert(seq![t.drop_last()].update(0, t.drop_last().push(t.last())) =~= seq![t]);
    }
}

/// A separator followed by a piece without separators adds that piece.
proof fn lemma_split_append(a: Seq<char>, t: Seq<char>, sep: char)
    requires
        !t.contains(sep),
    ensures
        split_on(a + seq![sep] + t, sep) == split_on(a, sep).push(t),
    decreases t.len(),
{
    if t.len() == 0 {
        assert(t =~= Seq::<char>::empty());
        let x = a + seq![sep] + t;
        assert(x =~= a.push(sep));
        assert(x.drop_last() =~= a);
        assert(x.last() == sep);
        assert(split_on(x, sep) == split_on(x.drop_last(), sep).push(Seq::<char>::empty()));
    } else {
        let u = t.drop_last();
        assert(!u.contains(sep)) by {
            if u.contains(sep) {
                let i = choose|i: int| 0 <= i < u.len() && u[i] == sep;
                assert(t[i] == sep);
            }
        }
        lemma_split_append(a, u, sep);
        let x = a + seq![sep] + t;
        assert(x.drop_last() =~= a + seq![sep] + u);
        assert(x.last() == t.last());
        assert(t.last() != sep) by {
            assert(t[t.len() - 1] == t.last());
        }
        crate::plugin::lemma_split_on_nonempty(a, sep);
        assert(u.push(t.last()) =~= t);
        let rest = split_on(x.drop_last(), sep);
        assert(rest == split_on(a, sep).push(u));
        assert(split_on(x, sep) == rest.update(rest.len() - 1, rest.last().push(x.last())));
        assert(split_on(a, sep).push(u).update(split_on(a, sep).len() as int, u.push(t.last()))
            =~= split_on(a, sep).push(t));
    }
}

/// The ID of the built-in Chat plugin is a valid plugin ID.
proof fn lemma_chat_plugin_id_valid()
    ensures
        valid_plugin_id("org.lexwisp.chat"@),
{
    reveal_strlit("org.lexwisp.chat");
    reveal_strlit("org");
    reveal_strlit("lexwisp");
    reveal_strlit("chat");
    let s = "org.lexwisp.chat"@;
    let org = "org"@;
    let lexwisp = "lexwisp"@;
    let chat = "chat"@;
    assert(!org.contains('.')) by {
        assert(forall|i: int| 0 <= i < org.len() ==> org[i] != '.');
    }
    assert(!lexwisp.contains('.')) by {
        assert(forall|i: int| 0 <= i < lexwisp.len() ==> lexwisp[i] != '.');
    }
    assert(!chat.contains('.')) by {
        assert(forall|i: int| 0 <= i < chat.len() ==> chat[i] != '.');
    }
    lemma_split_single(org, '.');
    lemma_split_append(org, lexwisp, '.');
    lemma_split_append(org + seq!['.'] + lexwisp, chat, '.');
    assert(s =~= org + seq!['.'] + lexwisp + seq!['.'] + chat);
    assert(split_on(s, '.') =~= seq![org, lexwisp, chat]);
    assert(plugin_segment_ok(org));
    assert(plugin_segment_ok(lexwisp));
    assert(plugin_segment_ok(chat));
}

/// The built-in Chat plugin: `org.lexwisp.chat`, shown as `Chat`, asking
/// for `ai.invoke` and `storage.write`.
pub fn chat_plugin() -> (r: PluginDescriptor)
    ensures
        r@ == (PluginView {
            id: "org.lexwisp.chat"@,
            display_name: "Chat"@,
            requested_capabilities: seq![Capability::AiInvoke, Capability::StorageWrite],
        }),
{
    proof {
        lemma_chat_plugin_id_valid();
    }
    let id = PluginId::parse("org.lexwisp.chat").unwrap();
    let mut caps: Vec<Capability> = Vec::new();
    caps.push(Capability::AiInvoke);
    caps.push(Capability::StorageWrite);
    assert(caps@ =~= seq![Capability::AiInvoke, Capability::StorageWrite]);
    PluginDescriptor::new(id, "Chat".to_string(), caps)
}

/// The built-in Chat action: `ask` of the Chat plugin, shown as `Ask`, run
/// natively.
pub fn chat_action() -> (r: ActionDescriptor)
    ensures
        r@ == (DescriptorView {
            plugin_id: "org.lexwisp.chat"@,
            id: "ask"@,
            display_name: "Ask"@,
            kind: ActionKindView::Native,
        }),
{
    let plugin = chat_plugin();
    proof {
        reveal_strlit("ask");
        assert(token_char("ask"@[0]) && token_char("ask"@[1]) && token_char("ask"@[2]));
        assert(valid_token("ask"@));
    }
    let id = ActionId::parse("ask").unwrap();
    ActionDescriptor::new(plugin.id().clone(), id, "Ask".to_string())
}

} // verus!
