pub mod deck;
pub mod mahjong;
pub mod player;
