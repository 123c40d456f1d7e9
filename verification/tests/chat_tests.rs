use craig::ai::{build_chat_request, reply_from_choices, select_model, AiError, AiModel, Role};
use craig::chat::{
    extract_mention_prompt, no_ping_allowed_mentions, normalize_prefix_prompt, plan_reply,
    reply_model, split_for_discord, ChatSource, DISCORD_MESSAGE_CHAR_LIMIT,
};

#[test]
fn source_names() {
    assert_eq!(ChatSource::SlashCommand.as_str(), "slash");
    assert_eq!(ChatSource::PrefixPrompt.as_str(), "prefix");
    assert_eq!(ChatSource::MentionMessage.as_str(), "mention");
}

#[test]
fn source_names_are_distinct() {
    let all = [ChatSource::SlashCommand, ChatSource::PrefixPrompt, ChatSource::MentionMessage];
    for (i, a) in all.iter().enumerate() {
        for (j, b) in all.iter().enumerate() {
            if i != j {
                assert_ne!(a.as_str(), b.as_str());
            }
        }
    }
}

#[test]
fn model_ids() {
    assert_eq!(AiModel::Llama3_3_70b.model_id(), "llama3.3-70b-instruct");
    assert_eq!(AiModel::Llama3_8b.model_id(), "llama3-8b-instruct");
    assert_eq!(AiModel::DeepSeekR1_70b.model_id(), "deepseek-r1-distill-llama-70b");
    assert_eq!(AiModel::MistralNemo.model_id(), "mistral-nemo-instruct-2407");
    assert_eq!(AiModel::Qwen3_32b.model_id(), "alibaba-qwen3-32b");
    assert_eq!(AiModel::GptOss120b.model_id(), "openai-gpt-oss-120b");
    assert_eq!(AiModel::GptOss20b.model_id(), "openai-gpt-oss-20b");
    assert_eq!(AiModel::Qwen3_32b.name(), "Qwen 3 32B");
}

#[test]
fn model_ids_are_distinct() {
    let all = [
        AiModel::Llama3_3_70b,
        AiModel::Llama3_8b,
        AiModel::DeepSeekR1_70b,
        AiModel::MistralNemo,
        AiModel::Qwen3_32b,
        AiModel::GptOss120b,
        AiModel::GptOss20b,
    ];
    for i in 0..all.len() {
        for j in 0..all.len() {
            if i != j {
                assert_ne!(all[i].model_id(), all[j].model_id());
            }
        }
    }
}

#[test]
fn selected_model_defaults() {
    assert_eq!(select_model(None, "my-default"), "my-default");
    assert_eq!(select_model(Some(AiModel::MistralNemo), "my-default"), "mistral-nemo-instruct-2407");
    assert_eq!(reply_model(None, "fallback-model"), "fallback-model");
    assert_eq!(reply_model(Some("picked"), "fallback-model"), "picked");
}

#[test]
fn prefix_prompt_trimmed() {
    assert_eq!(normalize_prefix_prompt("  hello there \n"), Some("hello there"));
    assert_eq!(normalize_prefix_prompt("x"), Some("x"));
    assert_eq!(normalize_prefix_prompt(""), None);
    assert_eq!(normalize_prefix_prompt(" \t\n "), None);
    assert_eq!(normalize_prefix_prompt("\u{3000}wide\u{00a0}"), Some("wide"));
}

#[test]
fn prefix_prompt_is_stable() {
    let once = normalize_prefix_prompt("   what is rust?   ").unwrap();
    assert_eq!(normalize_prefix_prompt(once), Some(once));
}

#[test]
fn mention_prompt_strips_mentions() {
    assert_eq!(
        extract_mention_prompt("<@1234> hello   world", 1234),
        Some("hello world".to_string())
    );
    assert_eq!(
        extract_mention_prompt("hey <@!1234>,\thow are\nyou <@1234>", 1234),
        Some("hey , how are you".to_string())
    );
    assert_eq!(extract_mention_prompt("<@1234>", 1234), None);
    assert_eq!(extract_mention_prompt("  <@!1234>  <@1234> ", 1234), None);
    assert_eq!(
        extract_mention_prompt("<@99> hi <@1234>", 1234),
        Some("<@99> hi".to_string())
    );
    assert_eq!(
        extract_mention_prompt("a<@18446744073709551615>b", u64::MAX),
        Some("a b".to_string())
    );
}

#[test]
fn mention_prompt_is_collapsed() {
    let p = extract_mention_prompt(" \u{2003}x \n\n y\t<@7>z  ", 7).unwrap();
    assert_eq!(p, "x y z");
    assert!(!p.starts_with(' ') && !p.ends_with(' '));
    assert!(!p.contains("  "));
}

#[test]
fn split_empty_is_one_space() {
    assert_eq!(split_for_discord(""), vec![" ".to_string()]);
}

#[test]
fn split_short_is_one_chunk() {
    assert_eq!(split_for_discord("hello"), vec!["hello".to_string()]);
}

#[test]
fn split_exact_limit() {
    let text: String = "a".repeat(DISCORD_MESSAGE_CHAR_LIMIT);
    let chunks = split_for_discord(&text);
    assert_eq!(chunks.len(), 1);
    assert_eq!(chunks[0].chars().count(), 2000);
}

#[test]
fn split_long_text() {
    let text: String = (0..4500).map(|i| char::from(b'a' + (i % 26) as u8)).collect();
    let chunks = split_for_discord(&text);
    assert_eq!(chunks.len(), 3);
    assert_eq!(chunks[0].chars().count(), 2000);
    assert_eq!(chunks[1].chars().count(), 2000);
    assert_eq!(chunks[2].chars().count(), 500);
    assert_eq!(chunks.concat(), text);
}

#[test]
fn split_counts_characters_not_bytes() {
    let text: String = "é".repeat(2001);
    let chunks = split_for_discord(&text);
    assert_eq!(chunks.len(), 2);
    assert_eq!(chunks[0].chars().count(), 2000);
    assert_eq!(chunks[1], "é");
    assert_eq!(chunks.concat(), text);
}

#[test]
fn reply_plan_first_is_reply() {
    let text = "b".repeat(4001);
    let plan = plan_reply(&text);
    assert_eq!(plan.len(), 3);
    assert!(plan[0].reply_to_source);
    assert!(!plan[1].reply_to_source);
    assert!(!plan[2].reply_to_source);
    assert_eq!(plan[2].content, "b");
    for m in &plan {
        assert!(!m.allowed_mentions.all_users);
        assert!(!m.allowed_mentions.replied_user);
    }
    let empty = plan_reply("");
    assert_eq!(empty.len(), 1);
    assert_eq!(empty[0].content, " ");
    assert!(empty[0].reply_to_source);
}

#[test]
fn no_ping_mentions() {
    let m = no_ping_allowed_mentions();
    assert!(!m.all_users && !m.all_roles && !m.everyone && !m.replied_user);
}

#[test]
fn chat_request_shape() {
    let r = build_chat_request("model-x", "be nice", "hi");
    assert_eq!(r.model, "model-x");
    assert_eq!(r.messages.len(), 2);
    assert_eq!(r.messages[0].role, Role::System);
    assert_eq!(r.messages[0].content, "be nice");
    assert_eq!(r.messages[1].role, Role::User);
    assert_eq!(r.messages[1].content, "hi");
}

#[test]
fn reply_from_first_choice() {
    assert_eq!(
        reply_from_choices(&vec![Some("first".to_string()), Some("second".to_string())]),
        Ok("first".to_string())
    );
    assert_eq!(reply_from_choices(&vec![]), Err(AiError::EmptyResponse));
    assert_eq!(
        reply_from_choices(&vec![None, Some("second".to_string())]),
        Err(AiError::EmptyResponse)
    );
    assert_eq!(AiError::EmptyResponse.message(), "The AI model returned an empty response.");
}

#[test]
fn mention_prompt_never_mentions_bot() {
    for content in [
        "<@<@1234>1234>",
        "<@!<@1234>1234> hi",
        "<<@1234>@1234>>",
        "<@12<@!1234>34>",
        "x<@1234><@1234>y",
    ] {
        let p = extract_mention_prompt(content, 1234).unwrap_or_default();
        assert!(!p.contains("<@1234>"), "{content} -> {p}");
        assert!(!p.contains("<@!1234>"), "{content} -> {p}");
    }
    assert_eq!(extract_mention_prompt("<@<@1234>1234>", 1234), Some("<@ 1234>".to_string()));
}
