use redis_test_simple::parser::parse_command;

#[test]
fn test_simple_command() {
    // Tests simple SET command: SET key value
    let input = "*3\r\n$3\r\nSET\r\n$3\r\nkey\r\n$5\r\nvalue\r\n";
    let result = parse_command(input);
    assert_eq!(result, vec!["SET", "key", "value"]);
}

#[test]
fn test_empty_array() {
    // Tests empty command array
    let input = "*0\r\n";
    let result = parse_command(input);
    assert_eq!(result.len(), 0);
}

#[test]
fn test_ping_command() {
    // Tests simple PING command
    let input = "*1\r\n$4\r\nPING\r\n";
    let result = parse_command(input);
    assert_eq!(result, vec!["PING"]);
}

#[test]
fn test_special_characters() {
    // Tests handling of special characters in strings
    let input = "*3\r\n$3\r\nSET\r\n$4\r\nkey:\r\n$6\r\nval@ue\r\n";
    let result = parse_command(input);
    assert_eq!(result, vec!["SET", "key:", "val@ue"]);
}

#[test]
fn test_malformed_input() {
    // Tests various malformed inputs
    let test_cases = vec![
        // Missing array length
        "*\r\n",
        // Invalid array length
        "*-1\r\n",
        // Missing bulk string length
        "*1\r\n$\r\n",
        // Content length mismatch
        "*1\r\n$5\r\ntest\r\n",
    ];

    for case in test_cases {
        let result = parse_command(case);
        assert_eq!(result.len(), 0, "Malformed input should return empty vec");
    }
}

#[test]
fn test_complex_command() {
    // Tests more complex command with longer strings
    let input = "*5\r\n$4\r\nMGET\r\n$3\r\nkey\r\n$4\r\nkey2\r\n$4\r\nkey3\r\n$4\r\nkey4\r\n";
    let result = parse_command(input);
    assert_eq!(result, vec!["MGET", "key", "key2", "key3", "key4"]);
}

#[test]
fn test_empty_strings() {
    // Tests handling of empty strings
    let input = "*3\r\n$3\r\nSET\r\n$0\r\n\r\n$0\r\n\r\n";
    let result = parse_command(input);
    assert_eq!(result, vec!["SET", "", ""]);
}

#[test]
fn test_state_transitions() {
    // The parser moves through every state on the way to two tokens
    let input = "*2\r\n$4\r\nECHO\r\n$5\r\nhello\r\n";
    let result = parse_command(input);
    assert_eq!(result, vec!["ECHO", "hello"]);
}

#[test]
fn test_consecutive_commands() {
    // Tests parsing multiple commands in sequence
    let input1 = "*1\r\n$4\r\nPING\r\n";
    let input2 = "*2\r\n$4\r\nECHO\r\n$5\r\nhello\r\n";

    let result1 = parse_command(input1);
    let result2 = parse_command(input2);

    assert_eq!(result1, vec!["PING"]);
    assert_eq!(result2, vec!["ECHO", "hello"]);
}

#[test]
fn test_whitespace_handling() {
    // Tests handling of whitespace in values
    let input = "*3\r\n$3\r\nSET\r\n$5\r\nkey 1\r\n$7\r\nvalue 1\r\n";
    let result = parse_command(input);
    assert_eq!(result, vec!["SET", "key 1", "value 1"]);
}

#[test]
fn garbage_before_the_frame_is_skipped() {
    let result = parse_command("hello there\r\n*1\r\n$4\r\nPING\r\n");
    assert_eq!(result, vec!["PING"]);
}

#[test]
fn truncated_frame_yields_fewer_tokens() {
    let whole = "*2\r\n$4\r\nECHO\r\n$5\r\nhello\r\n";
    assert_eq!(parse_command(whole).len(), 2);
    // cut inside the second length field
    assert_eq!(parse_command("*2\r\n$4\r\nECHO\r\n$5"), vec!["ECHO"]);
    // cut inside the second bulk string
    assert_eq!(parse_command("*2\r\n$4\r\nECHO\r\n$5\r\nhel"), vec!["ECHO"]);
    // cut inside the first length field
    assert_eq!(parse_command("*2\r\n$").len(), 0);
    // cut inside the element count
    assert_eq!(parse_command("*2").len(), 0);
}

#[test]
fn the_last_line_feed_is_not_needed() {
    assert_eq!(parse_command("*1\r\n$4\r\nPING\r"), vec!["PING"]);
}

#[test]
fn non_numeric_bulk_length_discards_the_tokens_so_far() {
    let result = parse_command("*3\r\n$3\r\nSET\r\n$x\r\nkey\r\n$5\r\nvalue\r\n");
    assert_eq!(result.len(), 0);
}

#[test]
fn non_numeric_element_count_yields_nothing() {
    let result = parse_command("*two\r\n$4\r\nECHO\r\n$5\r\nhello\r\n");
    assert_eq!(result.len(), 0);
}

#[test]
fn a_frame_after_a_broken_one_is_read() {
    let result = parse_command("*2\r\n$3\r\nGET\r\n$zz\r\n*1\r\n$4\r\nPING\r\n");
    assert_eq!(result, vec!["PING"]);
}

#[test]
fn element_count_is_not_a_loop_bound() {
    let result = parse_command("*1\r\n$1\r\na\r\n$1\r\nb\r\n");
    assert_eq!(result, vec!["a", "b"]);
}

#[test]
fn signed_lengths_are_read() {
    assert_eq!(parse_command("*+1\r\n$+4\r\nPING\r\n"), vec!["PING"]);
    assert_eq!(parse_command("*1\r\n$-1\r\n\r\n").len(), 0);
}

#[test]
fn short_content_stalls_until_the_length_is_met() {
    // the first carriage return comes too early, the second on time
    let result = parse_command("*1\r\n$4\r\nab\r\ncd\r\n");
    assert_eq!(result, vec!["abcd"]);
}

#[test]
fn bulk_length_counts_bytes() {
    assert_eq!(parse_command("*1\r\n$2\r\n\u{e9}\r\n"), vec!["\u{e9}"]);
    assert_eq!(parse_command("*1\r\n$1\r\n\u{e9}\r\n").len(), 0);
}

#[test]
fn length_out_of_range_is_not_numeric() {
    assert_eq!(parse_command("*1\r\n$2147483648\r\nx\r\n").len(), 0);
    assert_eq!(parse_command("*2147483648\r\n$1\r\nx\r\n").len(), 0);
    assert_eq!(parse_command("*2147483647\r\n$1\r\nx\r\n"), vec!["x"]);
}

fn frame_of(tokens: &[&str]) -> String {
    let mut text = format!("*{}\r\n", tokens.len());
    for token in tokens {
        text.push_str(&format!("${}\r\n{}\r\n", token.len(), token));
    }
    text
}

#[test]
fn well_formed_frames_give_their_tokens_back() {
    let cases: Vec<Vec<&str>> = vec![
        vec![],
        vec![""],
        vec!["SET", "k", "v"],
        vec!["*3", "$5", "a*b$c", "12"],
        vec!["caf\u{e9}", "\u{4e16}\u{754c}", "\u{1f600}"],
        vec!["with space", "\ttab", "", "", "end"],
        vec!["a", "b", "c", "d", "e", "f", "g", "h", "i", "j", "k", "l"],
    ];
    for tokens in cases {
        assert_eq!(parse_command(&frame_of(&tokens)), tokens, "tokens {:?}", tokens);
    }
}

#[test]
fn every_cut_of_a_frame_yields_fewer_tokens() {
    let tokens = ["APPEND", "key", "", "{\"a\":[1,2]}", "\u{e9}t\u{e9}"];
    let whole = frame_of(&tokens);
    assert_eq!(parse_command(&whole), tokens);
    let chars: Vec<char> = whole.chars().collect();
    for cut in 0..chars.len() - 1 {
        let kept: String = chars[..cut].iter().collect();
        let parsed = parse_command(&kept);
        assert!(parsed.len() < tokens.len(), "cut at {}", cut);
        // what is yielded is a prefix of the frame's tokens
        assert_eq!(parsed[..], tokens[..parsed.len()], "cut at {}", cut);
    }
    // the last line feed alone is not missed
    let kept: String = chars[..chars.len() - 1].iter().collect();
    assert_eq!(parse_command(&kept), tokens);
}

#[test]
fn every_broken_length_field_yields_fewer_tokens() {
    let tokens = ["MGET", "a", "*1", "$1", "z"];
    for broken in 0..tokens.len() {
        for bad in ["", "x", "1x", "-", "4294967296", " 1", "1.0"] {
            let mut text = format!("*{}\r\n", tokens.len());
            for (index, token) in tokens.iter().enumerate() {
                if index == broken {
                    text.push_str(&format!("${}\r\n{}\r\n", bad, token));
                } else {
                    text.push_str(&format!("${}\r\n{}\r\n", token.len(), token));
                }
            }
            let parsed = parse_command(&text);
            assert!(parsed.len() < tokens.len(), "field {} reads {:?}", broken, bad);
        }
    }
    for bad in ["", "x", "5x", "2147483648"] {
        let mut text = format!("*{}\r\n", bad);
        for token in tokens {
            text.push_str(&format!("${}\r\n{}\r\n", token.len(), token));
        }
        assert!(parse_command(&text).len() < tokens.len(), "count reads {:?}", bad);
    }
}

#[test]
fn tokens_cost_carriage_returns() {
    let inputs = [
        "*1\r\n$4\r\nPING\r\n",
        "*1\r$1\ra\r$1\rb\r$1\rc\r",
        "\r\r\r\r\r\r",
        "*1\r\n$0\r\n\r\n$0\r\n\r\n",
        "*1\r\n$1\r\n\r\r\r\r",
        "junk*2\r$1\ra\r$x\r*1\r$1\rb\r",
    ];
    for input in inputs {
        let count = parse_command(input).len();
        let carriage_returns = input.chars().filter(|c| *c == '\r').count();
        if count > 0 {
            assert!(2 * count + 1 <= carriage_returns, "input {:?}", input);
        }
    }
    assert_eq!(parse_command("*1\r$1\ra\r$1\rb\r$1\rc\r"), vec!["a", "b", "c"]);
}
