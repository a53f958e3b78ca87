use max_7219_led_matrix_util::encoding::encode_char;
use max_7219_led_matrix_util::encoding::encode_string;
use max_7219_led_matrix_util::prepare_text;
use max_7219_led_matrix_util::remove_gaps_in_display_text;
use max_7219_led_matrix_util::shift_all_rows_one_bit_left;
use max_7219_led_matrix_util::transpose_single_display_data;
use max_7219_led_matrix_util::SingleDisplayData;

#[test]
fn test_move_all_bits_one_col_left() {
    let data_dis_0 = [
        0b01000000, 0b00000000, 0b00000000, 0b00000000, 0b00000000, 0b00000000, 0b00000000,
        0b00000000,
    ];
    let data_dis_1 = [
        0b11000000, 0b00000000, 0b00000000, 0b00000000, 0b00000000, 0b00000000, 0b00000000,
        0b00000000,
    ];
    let mut data = Vec::new();
    data.push(data_dis_0);
    data.push(data_dis_1);

    shift_all_rows_one_bit_left(&mut data);

    let first_row_dis_0_expected = 0b10000001;
    let first_row_dis_1_expected = 0b10000000;
    let first_row_dis_0_actual = data[0][0];
    let first_row_dis_1_actual = data[1][0];

    assert_eq!(first_row_dis_0_actual, first_row_dis_0_expected);
    assert_eq!(first_row_dis_1_actual, first_row_dis_1_expected);
}

#[test]
fn test_transpose_single_display_data() {
    let input = [
        0b0100_0000,
        0b0100_0000,
        0b0100_0000,
        0b0100_0000,
        0b0000_0011,
        0b0000_0011,
        0b0000_0011,
        0b0000_0011,
    ];
    let expected = [
        0b0000_0000,
        0b1111_0000,
        0b0000_0000,
        0b0000_0000,
        0b0000_0000,
        0b0000_0000,
        0b0000_1111,
        0b0000_1111,
    ];

    let actual = transpose_single_display_data(&input);

    for i in 0..input.len() {
        assert_eq!(
            actual[i], expected[i],
            "swap_cols_to_rows() doesn't transposed the matrix properly at index {}! is={:#b}, expected={:#b}",
            i, actual[i], expected[i]
        );
    }
}

#[test]
fn test_remove_gaps_in_display_text() {
    let vec = vec![
        [
            0b10000000, 0b10000000, 0b10000000, 0b10000000, 0b10000000, 0b10000000, 0b10000000,
            0b10000000,
        ],
        [
            0b10000000, 0b10000000, 0b10000000, 0b10000000, 0b10000000, 0b10000000, 0b10000000,
            0b10000000,
        ],
    ];
    let expected = vec![
        [
            0b10010000, 0b10010000, 0b10010000, 0b10010000, 0b10010000, 0b10010000, 0b10010000,
            0b10010000,
        ],
        [0, 0, 0, 0, 0, 0, 0, 0],
    ];
    let actual = remove_gaps_in_display_text(&vec, 2);
    for i in 0..2 {
        for j in 0..8 {
            assert_eq!(
                actual[i][j], expected[i][j],
                "expected: {:#b}, is: {:#b}",
                expected[i][j], vec[i][j]
            );
        }
    }
}

fn count_set_bits(data: &Vec<SingleDisplayData>) -> u32 {
    let mut n = 0;
    for display in data.iter() {
        for row in display.iter() {
            n += row.count_ones();
        }
    }
    n
}

#[test]
fn transpose_twice_gives_the_input_back() {
    let samples: Vec<SingleDisplayData> = vec![
        [0b10110001, 0b00000000, 0b11111111, 0b01010101, 0b00110010, 0b10000001, 0b00011000, 0b11001100],
        [0, 0, 0, 0, 0, 0, 0, 0],
        [0xFF, 0xFF, 0xFF, 0xFF, 0xFF, 0xFF, 0xFF, 0xFF],
        [1, 2, 4, 8, 16, 32, 64, 128],
    ];
    for x in samples.iter() {
        let once = transpose_single_display_data(x);
        let twice = transpose_single_display_data(&once);
        assert_eq!(&twice, x);
    }
}

#[test]
fn unknown_characters_encode_as_blank() {
    assert_eq!(encode_char('@'), [0u8; 8]);
    assert_eq!(encode_char('?'), [0u8; 8]);
    assert_eq!(encode_char('%'), [0u8; 8]);
    assert_eq!(encode_char(' '), [0u8; 8]);
    // letters the font has no drawing for yet render blank as well
    assert_eq!(encode_char('J'), [0u8; 8]);
    assert_eq!(encode_char('Q'), [0u8; 8]);
}

#[test]
fn lowercase_letters_fold_to_their_capital() {
    assert_eq!(encode_char('a'), encode_char('A'));
    assert_eq!(encode_char('z'), encode_char('Z'));
    assert_ne!(encode_char('a'), [0u8; 8]);
}

#[test]
fn encode_string_encodes_each_character_in_order() {
    let bitmaps = encode_string("Hi 0!");
    assert_eq!(bitmaps.len(), 5);
    assert_eq!(bitmaps[0], encode_char('H'));
    assert_eq!(bitmaps[1], encode_char('i'));
    assert_eq!(bitmaps[2], [0u8; 8]);
    assert_eq!(bitmaps[3], encode_char('0'));
    assert_eq!(bitmaps[4], encode_char('!'));
}

#[test]
fn shift_conserves_the_number_of_set_bits() {
    let mut data = encode_string("AB C!");
    let before = count_set_bits(&data);
    for _ in 0..100 {
        shift_all_rows_one_bit_left(&mut data);
        assert_eq!(count_set_bits(&data), before);
    }
}

#[test]
fn shift_wraps_the_leftmost_column_to_the_last_position() {
    // a single display: the shift is a plain rotation of each row
    let mut single = vec![[0b10000000u8, 0, 0, 0, 0, 0, 0, 0b11000001]];
    shift_all_rows_one_bit_left(&mut single);
    assert_eq!(single[0][0], 0b00000001);
    assert_eq!(single[0][7], 0b10000011);

    // two displays: position 0's leftmost column reappears at the end
    let mut pair = vec![[0b10000000u8, 0, 0, 0, 0, 0, 0, 0], [0b00000001u8, 0, 0, 0, 0, 0, 0, 0]];
    shift_all_rows_one_bit_left(&mut pair);
    assert_eq!(pair[0][0], 0b00000000);
    assert_eq!(pair[1][0], 0b00000011);
}

#[test]
fn compaction_output_is_whole_displays_and_keeps_edges() {
    // a blank display, a fully lit one, a blank one: the interior has no
    // blank columns, so even the tightest cap changes nothing and the
    // blank edges survive verbatim
    let data = vec![[0u8; 8], [0xFFu8; 8], [0u8; 8]];
    let compacted = remove_gaps_in_display_text(&data, 0);
    assert_eq!(compacted, data);
}

#[test]
fn compaction_shrinks_the_interior_but_not_the_edges() {
    // a blank display on each side; the middle one has its outer columns
    // lit and six blank columns in between
    let middle = [0b10000001u8; 8];
    let data = vec![[0u8; 8], middle, [0u8; 8]];
    let compacted = remove_gaps_in_display_text(&data, 2);
    // the interior gap shrinks to two columns; the leading eight blank
    // columns stay, and the trailing run only grows by the padding
    let expected = vec![[0u8; 8], [0b10010000u8; 8], [0u8; 8]];
    assert_eq!(compacted, expected);
}

#[test]
fn compaction_keeps_a_sequence_with_no_lit_columns_unchanged() {
    let data = vec![[0u8; 8], [0u8; 8]];
    let compacted = remove_gaps_in_display_text(&data, 3);
    assert_eq!(compacted, data);
}

#[test]
fn compaction_caps_an_interior_gap_at_the_configured_width() {
    // two columns lit, 14 blank columns apart; a cap of 3 leaves 3
    let left = [0b10000000u8; 8];
    let right = [0b00000001u8; 8];
    let compacted = remove_gaps_in_display_text(&vec![left, right], 3);
    // columns: lit, 3 blanks, lit, then padding to a whole display
    assert_eq!(compacted.len(), 1);
    assert_eq!(compacted[0], [0b10001000u8; 8]);
}

#[test]
fn compaction_of_an_empty_sequence_is_empty() {
    let data: Vec<SingleDisplayData> = Vec::new();
    let compacted = remove_gaps_in_display_text(&data, 2);
    assert_eq!(compacted.len(), 0);
}

#[test]
fn prepare_text_without_a_gap_width_just_encodes() {
    let prepared = prepare_text("AB", None);
    assert_eq!(prepared, encode_string("AB"));
}

#[test]
fn prepare_text_with_a_gap_width_compacts_the_encoding() {
    let prepared = prepare_text("A A", Some(2));
    assert_eq!(prepared, remove_gaps_in_display_text(&encode_string("A A"), 2));
}
