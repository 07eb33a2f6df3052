pub mod market_maker;
