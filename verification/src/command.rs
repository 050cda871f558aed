pub mod move_command;
pub mod move_rules;
pub mod roll_modifier;
pub mod craft_reroll_modifier;
pub mod craft_expand_modifier;
pub mod expand_places;
pub mod expand_elements;
pub mod expand_max_element;
pub mod expand_min_element;
pub mod expand_min_simultanius_element;
pub mod expand_max_simultaneous_element;
pub mod expand_equipment_slots;
pub mod reduce_difficulty;
pub mod equip_swap;
pub mod reorder_inventory;
pub mod presentation_game_state;
pub mod commands;
pub mod help;
pub mod save_load;
