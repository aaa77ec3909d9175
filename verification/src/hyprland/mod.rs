//! The value types of a Hyprland configuration.
pub mod direction;
pub mod dispatcher_fullscreen_state_action;
pub mod fullscreen_action;
pub mod gesture_direction;
pub mod gesture_floating;
pub mod gesture_fullscreen;
pub mod group_lock_action;
pub mod cm;
pub mod hypr_layout;
pub mod animation_name;
pub mod above_lock;
pub mod content_type;
pub mod content_type_int;
pub mod cursor_corner;
pub mod dispatcher_fullscreen_state;
pub mod fullscreen_mode;
pub mod fullscreen_state;
pub mod bind_flags;
pub mod bind_left;
pub mod bind_flags_enum;
pub mod change_group_active;
pub mod angle;
pub mod font_weight;
pub mod css_gaps;
pub mod cycle_next;
pub mod hypr_color;
pub mod hypr_gradient;
pub mod border_color;
