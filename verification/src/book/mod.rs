pub mod order_book;
pub mod top_of_book;
